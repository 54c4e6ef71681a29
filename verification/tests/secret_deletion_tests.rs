use mailwind::account::{account_secret_name, load_account_secret, SecretError};
use mailwind::secret_deletion::{DeletionAction, DeletionEvent, SecretDeletion};
use std::collections::BTreeMap;

const FIELDS: [&str; 5] =
    ["access_token", "refresh_token", "client_secret", "password", "client_id"];

type Store = BTreeMap<String, String>;

fn store(accounts: &[i64], fields: &[&str]) -> Store {
    let mut store = Store::new();
    for id in accounts {
        for field in fields {
            store.insert(account_secret_name(*id, field), format!("{id}-{field}"));
        }
    }
    store
}

fn delete_all(store: &mut Store, account_id: i64) -> Result<(), String> {
    let (mut deletion, mut action) = SecretDeletion::start(account_id);
    loop {
        let event = match action {
            DeletionAction::Delete { name, .. } => match store.remove(&name) {
                Some(_) => DeletionEvent::Asked(Ok(())),
                None => DeletionEvent::Asked(Err(SecretError::Missing)),
            },
            DeletionAction::Finished => return Ok(()),
            DeletionAction::Stopped(error) => return Err(error),
        };
        action = deletion.step(event).unwrap();
    }
}

fn load(store: &Store, account_id: i64, field: &str) -> Result<Option<String>, String> {
    let kept = store.get(&account_secret_name(account_id, field)).cloned();
    load_account_secret(field, kept.ok_or(SecretError::Missing))
}

#[test]
fn deleted_secrets_are_gone_and_others_stay() {
    let mut all = store(&[1, 11, -1], &FIELDS);
    assert_eq!(delete_all(&mut all, 1), Ok(()));
    for field in FIELDS {
        assert_eq!(load(&all, 1, field), Ok(None));
        assert_eq!(load(&all, 11, field), Ok(Some(format!("11-{field}"))));
        assert_eq!(load(&all, -1, field), Ok(Some(format!("-1-{field}"))));
    }
    assert_eq!(all, store(&[11, -1], &FIELDS));
}

#[test]
fn deleting_secrets_again_is_no_error() {
    let mut some = store(&[1, 2], &["password"]);
    assert_eq!(delete_all(&mut some, 1), Ok(()));
    assert_eq!(delete_all(&mut some, 1), Ok(()));
    assert_eq!(some, store(&[2], &["password"]));
}

#[test]
fn a_deletion_asks_for_each_kind_in_order() {
    let (mut deletion, first) = SecretDeletion::start(7);
    let mut next = Some(first);
    for field in FIELDS {
        assert!(matches!(
            next,
            Some(DeletionAction::Delete { field: f, name })
                if f == field && name == account_secret_name(7, field)
        ));
        next = deletion.step(DeletionEvent::Asked(Ok(())));
    }
    assert!(matches!(next, Some(DeletionAction::Finished)));
    assert!(deletion.step(DeletionEvent::Asked(Ok(()))).is_none());
}

#[test]
fn a_deletion_stops_at_the_first_failure() {
    let (mut deletion, _) = SecretDeletion::start(7);
    deletion.step(DeletionEvent::Asked(Ok(())));
    let failed = DeletionEvent::Asked(Err(SecretError::Failed("locked".to_string())));
    assert!(matches!(
        deletion.step(failed),
        Some(DeletionAction::Stopped(e))
            if e == "Could not delete refresh_token from the OS credential store: locked"
    ));
    assert!(deletion.step(DeletionEvent::Asked(Ok(()))).is_none());

    let (mut deletion, _) = SecretDeletion::start(7);
    assert!(matches!(
        deletion.step(DeletionEvent::Unopened("none".to_string())),
        Some(DeletionAction::Stopped(e))
            if e == "Could not open secure credential store for access_token: none"
    ));
}
