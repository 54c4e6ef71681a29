//! Going through the folders of an IMAP account: all of them for a sync, the
//! newest messages of the inbox for a poll.
//!
//! As a pass over one folder does, a scan says what is to be done next and is
//! told what came of it.
use vstd::prelude::*;
use vstd::relations::{sorted_by, total_ordering};
use vstd::seq_lib::lemma_sorted_unique;

use crate::fetched::{gone, missing_imap_rows, row_views};
use crate::folder_pass::{
    fresh_pass, plus, FolderPass, PassAction, PassActionView, PassEvent, PassEventView, PassRules,
    PassView,
};
use crate::text::{copy, texts};

verus! {

// ---------------------------------------------------------------------------
// Newest first
// ---------------------------------------------------------------------------
/// The uids from the largest to the smallest: newer messages have larger uids.
pub open spec fn newest_first(uids: Seq<u32>) -> Seq<u32> {
    uids.sort_by(|a: u32, b: u32| a >= b)
}

/// In ascending order.
pub open spec fn ascending(s: Seq<u32>) -> bool {
    forall|i: int, j: int| 0 <= i < j < s.len() ==> #[trigger] s[i] <= #[trigger] s[j]
}

/// `slice::sort_unstable` of the standard library, on numbers: puts them in
/// ascending order.
#[verifier::external_body]
fn sort_ascending(uids: &mut Vec<u32>)
    ensures
        final(uids)@.to_multiset() == old(uids)@.to_multiset(),
        ascending(final(uids)@),
{
    uids.sort_unstable();
}

/// Computes [`newest_first`].
pub fn sort_newest_first(uids: Vec<u32>) -> (r: Vec<u32>)
    ensures
        r@ == newest_first(uids@),
{
    let ghost given = uids@;
    let mut left = uids;
    sort_ascending(&mut left);
    let ghost sorted = left@;
    let mut r: Vec<u32> = Vec::new();
    while left.len() > 0
        invariant
            left@.len() + r@.len() == sorted.len(),
            left@ == sorted.take(left@.len() as int),
            r@ == sorted.skip(left@.len() as int).reverse(),
        decreases left.len(),
    {
        let ghost n = left@.len() as int;
        if let Some(uid) = left.pop() {
            r.push(uid);
            assert(r@ =~= sorted.skip(n - 1).reverse());
        }
    }
    proof {
        let newest = |a: u32, b: u32| a >= b;
        assert(sorted.skip(0) =~= sorted);
        assert(r@ == sorted.reverse());
        lemma_reverse_multiset(sorted);
        assert(total_ordering(newest));
        given.lemma_sort_by_ensures(newest);
        assert forall|i: int, j: int| 0 <= i < j < r@.len() implies #[trigger] newest(
            r@[i],
            r@[j],
        ) by {
            let n = sorted.len();
            assert(sorted[n - 1 - j] <= sorted[n - 1 - i]);
        }
        assert(sorted_by(r@, newest));
        lemma_sorted_unique(r@, newest_first(given), newest);
    }
    r
}

proof fn lemma_reverse_multiset(s: Seq<u32>)
    ensures
        s.reverse().to_multiset() == s.to_multiset(),
    decreases s.len(),
{
    broadcast use vstd::seq_lib::group_to_multiset_ensures;

    if s.len() == 0 {
        assert(s.reverse() =~= s);
    } else {
        let front = s.drop_last();
        lemma_reverse_multiset(front);
        assert(s.reverse() =~= seq![s.last()] + front.reverse());
        assert(s =~= front + seq![s.last()]);
        vstd::seq_lib::lemma_multiset_commutative(seq![s.last()], front.reverse());
        vstd::seq_lib::lemma_multiset_commutative(front, seq![s.last()]);
        assert(s.reverse().to_multiset() =~= s.to_multiset());
    }
}

/// The first so many of some uids, or all of them where there is no limit.
pub open spec fn limited(uids: Seq<u32>, limit: Option<usize>) -> Seq<u32> {
    match limit {
        Some(n) => if uids.len() > n {
            uids.take(n as int)
        } else {
            uids
        },
        None => uids,
    }
}

// ---------------------------------------------------------------------------
// Plans
// ---------------------------------------------------------------------------
/// A role that folders play, and the names that the folder has on one server or
/// another.
pub struct RoleFolders {
    pub role: String,
    pub folders: Vec<String>,
}

/// The view of [`RoleFolders`].
pub struct RoleView {
    pub role: Seq<char>,
    pub folders: Seq<Seq<char>>,
}

impl View for RoleFolders {
    type V = RoleView;

    open spec fn view(&self) -> RoleView {
        RoleView { role: self.role@, folders: texts(self.folders@) }
    }
}

/// What a scan goes through, and how.
pub struct ScanPlan {
    pub roles: Vec<RoleFolders>,
    /// How many messages of a folder are looked at.
    pub limit: Option<usize>,
    /// Whether a folder that cannot be selected is an error.
    pub required: bool,
    pub rules: PassRules,
}

/// The view of a [`ScanPlan`].
pub struct PlanView {
    pub roles: Seq<RoleView>,
    pub limit: Option<usize>,
    pub required: bool,
    pub rules: PassRules,
}

impl View for ScanPlan {
    type V = PlanView;

    open spec fn view(&self) -> PlanView {
        PlanView {
            roles: Seq::new(self.roles@.len(), |i: int| self.roles@[i]@),
            limit: self.limit,
            required: self.required,
            rules: self.rules,
        }
    }
}

impl PlanView {
    /// There is something to go through, and every role has a folder.
    pub open spec fn wf(self) -> bool {
        &&& self.roles.len() > 0
        &&& self.rules.flag_chunk > 0
        &&& self.rules.body_chunk > 0
        &&& forall|i: int| 0 <= i < self.roles.len() ==> (#[trigger] self.roles[i]).folders.len() > 0
    }
}

/// A role and the names of its folder.
pub open spec fn role_view(role: Seq<char>, folders: Seq<Seq<char>>) -> RoleView {
    RoleView { role, folders }
}

/// What a sync goes through: inbox, sent mail, trash and archive, each in the
/// first folder that can be selected. Flags are fetched for a hundred messages at
/// once, messages twenty-five at once.
pub open spec fn sync_plan() -> PlanView {
    PlanView {
        roles: seq![
            role_view("Inbox"@, seq!["INBOX"@]),
            role_view("Sent"@, seq!["Sent"@, "Sent Items"@, "[Gmail]/Sent Mail"@]),
            role_view("Trash"@, seq!["Trash"@, "Deleted Items"@, "[Gmail]/Trash"@]),
            role_view("Archive"@, seq!["Archive"@, "Archives"@]),
        ],
        limit: None,
        required: false,
        rules: PassRules { flag_chunk: 100, body_chunk: 25, prune: true, reopen_after_text: true },
    }
}

/// What a poll goes through: the thirty newest messages of the inbox, all at once.
pub open spec fn poll_plan() -> PlanView {
    PlanView {
        roles: seq![role_view("Inbox"@, seq!["INBOX"@])],
        limit: Some(30),
        required: true,
        rules: PassRules { flag_chunk: 30, body_chunk: 30, prune: false, reopen_after_text: false },
    }
}

/// A list of up to three names.
fn names(a: &str, b: Option<&str>, c: Option<&str>) -> (r: Vec<String>)
    requires
        c is Some ==> b is Some,
    ensures
        texts(r@) == match (b, c) {
            (Some(b), Some(c)) => seq![a@, b@, c@],
            (Some(b), None) => seq![a@, b@],
            _ => seq![a@],
        },
{
    let mut r: Vec<String> = Vec::new();
    r.push(a.to_owned());
    assert(texts(r@) =~= seq![a@]);
    if let Some(b) = b {
        r.push(b.to_owned());
        assert(texts(r@) =~= seq![a@, b@]);
        if let Some(c) = c {
            r.push(c.to_owned());
            assert(texts(r@) =~= seq![a@, b@, c@]);
        }
    }
    r
}

/// The search for the messages of a folder that are not deleted.
pub fn present_messages_search() -> (r: &'static str)
    ensures
        r@ == "UNDELETED"@,
{
    "UNDELETED"
}

/// The plan of a sync.
pub fn imap_sync_plan() -> (r: ScanPlan)
    ensures
        r@ == sync_plan(),
        r@.wf(),
{
    let mut roles: Vec<RoleFolders> = Vec::new();
    roles.push(RoleFolders { role: "Inbox".to_owned(), folders: names("INBOX", None, None) });
    roles.push(
        RoleFolders {
            role: "Sent".to_owned(),
            folders: names("Sent", Some("Sent Items"), Some("[Gmail]/Sent Mail")),
        },
    );
    roles.push(
        RoleFolders {
            role: "Trash".to_owned(),
            folders: names("Trash", Some("Deleted Items"), Some("[Gmail]/Trash")),
        },
    );
    roles.push(
        RoleFolders {
            role: "Archive".to_owned(),
            folders: names("Archive", Some("Archives"), None),
        },
    );
    let plan = ScanPlan {
        roles,
        limit: None,
        required: false,
        rules: PassRules { flag_chunk: 100, body_chunk: 25, prune: true, reopen_after_text: true },
    };
    assert(plan@.roles =~= sync_plan().roles);
    plan
}

/// The plan of a poll.
pub fn imap_poll_plan() -> (r: ScanPlan)
    ensures
        r@ == poll_plan(),
        r@.wf(),
{
    let mut roles: Vec<RoleFolders> = Vec::new();
    roles.push(RoleFolders { role: "Inbox".to_owned(), folders: names("INBOX", None, None) });
    let plan = ScanPlan {
        roles,
        limit: Some(30),
        required: true,
        rules: PassRules { flag_chunk: 30, body_chunk: 30, prune: false, reopen_after_text: false },
    };
    assert(plan@.roles =~= poll_plan().roles);
    plan
}

// ---------------------------------------------------------------------------
// What is told and what is asked
// ---------------------------------------------------------------------------
/// What a scan is told.
pub enum ScanEvent {
    /// What was to be done is done.
    Done,
    /// The folder could not be selected.
    Failed,
    /// The messages in the folder that are not deleted.
    Uids(Vec<u32>),
    /// The names of the messages that are stored for the role.
    Known(Vec<String>),
    /// The rows that are stored for the role.
    Rows(Vec<(i64, String)>),
    /// What the pass over the folder waits for.
    Pass(PassEvent),
}

/// The view of a [`ScanEvent`].
pub enum ScanEventView {
    Done,
    Failed,
    Uids(Seq<u32>),
    Known(Seq<Seq<char>>),
    Rows(Seq<(i64, Seq<char>)>),
    Pass(PassEventView),
}

impl View for ScanEvent {
    type V = ScanEventView;

    open spec fn view(&self) -> ScanEventView {
        match *self {
            ScanEvent::Done => ScanEventView::Done,
            ScanEvent::Failed => ScanEventView::Failed,
            ScanEvent::Uids(uids) => ScanEventView::Uids(uids@),
            ScanEvent::Known(names) => ScanEventView::Known(texts(names@)),
            ScanEvent::Rows(rows) => ScanEventView::Rows(row_views(rows@)),
            ScanEvent::Pass(event) => ScanEventView::Pass(event@),
        }
    }
}

/// What is to be done next.
pub enum ScanAction {
    /// Select a folder.
    Select { folder: String, required: bool },
    /// Search the folder for the messages that are not deleted.
    Search { role: String },
    /// Load the rows that are stored for a role.
    LoadRows { role: String },
    /// Delete rows.
    DeleteRows(Vec<i64>),
    /// Load the names of the messages that are stored for a role.
    LoadKnown { role: String },
    /// What the pass over a folder asks for.
    Pass { role: String, folder: String, action: PassAction },
    /// Nothing: the scan is over.
    Finished,
}

/// The view of a [`ScanAction`].
pub enum ScanActionView {
    Select { folder: Seq<char>, required: bool },
    Search { role: Seq<char> },
    LoadRows { role: Seq<char> },
    DeleteRows(Seq<i64>),
    LoadKnown { role: Seq<char> },
    Pass { role: Seq<char>, folder: Seq<char>, action: PassActionView },
    Finished,
}

impl View for ScanAction {
    type V = ScanActionView;

    open spec fn view(&self) -> ScanActionView {
        match *self {
            ScanAction::Select { folder, required } => ScanActionView::Select {
                folder: folder@,
                required,
            },
            ScanAction::Search { role } => ScanActionView::Search { role: role@ },
            ScanAction::LoadRows { role } => ScanActionView::LoadRows { role: role@ },
            ScanAction::DeleteRows(ids) => ScanActionView::DeleteRows(ids@),
            ScanAction::LoadKnown { role } => ScanActionView::LoadKnown { role: role@ },
            ScanAction::Pass { role, folder, action } => ScanActionView::Pass {
                role: role@,
                folder: folder@,
                action: action@,
            },
            ScanAction::Finished => ScanActionView::Finished,
        }
    }
}

// ---------------------------------------------------------------------------
// The state of a scan
// ---------------------------------------------------------------------------
/// Where a scan is.
pub enum Stage {
    /// A folder is being selected.
    Select,
    /// The folder is being searched.
    Search,
    /// The folder is empty: the rows of the role are being loaded.
    EmptyRows,
    /// The folder is empty: so many rows are being deleted.
    EmptyDelete(usize),
    /// The names of the stored messages are being loaded, to go over these uids.
    Known(Vec<u32>),
    /// A pass over the folder is under way.
    Pass(FolderPass),
    /// All is done.
    Finished,
}

/// The view of a [`Stage`].
pub enum StageView {
    Select,
    Search,
    EmptyRows,
    EmptyDelete(usize),
    Known(Seq<u32>),
    Pass(PassView),
    Finished,
}

impl View for Stage {
    type V = StageView;

    open spec fn view(&self) -> StageView {
        match *self {
            Stage::Select => StageView::Select,
            Stage::Search => StageView::Search,
            Stage::EmptyRows => StageView::EmptyRows,
            Stage::EmptyDelete(n) => StageView::EmptyDelete(n),
            Stage::Known(uids) => StageView::Known(uids@),
            Stage::Pass(pass) => StageView::Pass(pass@),
            Stage::Finished => StageView::Finished,
        }
    }
}

/// A scan of an account.
pub struct ImapScan {
    plan: ScanPlan,
    role: usize,
    candidate: usize,
    stage: Stage,
    stored: usize,
    changed: usize,
}

/// The view of an [`ImapScan`].
pub struct ScanView {
    pub plan: PlanView,
    /// Which role is being gone through.
    pub role: int,
    /// Which of the names of its folder is being tried.
    pub candidate: int,
    pub stage: StageView,
    /// How many messages were stored.
    pub stored: usize,
    /// How many rows changed or went.
    pub changed: usize,
}

impl View for ImapScan {
    type V = ScanView;

    closed spec fn view(&self) -> ScanView {
        ScanView {
            plan: self.plan@,
            role: self.role as int,
            candidate: self.candidate as int,
            stage: self.stage@,
            stored: self.stored,
            changed: self.changed,
        }
    }
}

impl ScanView {
    /// The role that is being gone through.
    pub open spec fn role_name(self) -> Seq<char> {
        self.plan.roles[self.role].role
    }

    /// The folder that is being gone through.
    pub open spec fn folder_name(self) -> Seq<char> {
        self.plan.roles[self.role].folders[self.candidate]
    }

    /// A state that a scan can be in.
    pub open spec fn wf(self) -> bool {
        &&& self.plan.wf()
        &&& 0 <= self.role <= self.plan.roles.len()
        &&& self.stage is Finished || {
            &&& self.role < self.plan.roles.len()
            &&& 0 <= self.candidate < self.plan.roles[self.role].folders.len()
        }
        &&& self.stage matches StageView::Pass(pass) ==> pass.wf()
    }

    /// The selecting of a folder.
    pub open spec fn select(self, role: int, candidate: int) -> (ScanView, ScanActionView) {
        let next = ScanView { role, candidate, stage: StageView::Select, ..self };
        (
            next,
            ScanActionView::Select { folder: next.folder_name(), required: self.plan.required },
        )
    }

    /// The next role, or the end.
    pub open spec fn next_role(self) -> (ScanView, ScanActionView) {
        if self.role + 1 < self.plan.roles.len() {
            self.select(self.role + 1, 0)
        } else {
            (
                ScanView { role: self.plan.roles.len() as int, stage: StageView::Finished, ..self },
                ScanActionView::Finished,
            )
        }
    }

    /// The next name of the folder, or the next role.
    pub open spec fn next_folder(self) -> (ScanView, ScanActionView) {
        if self.candidate + 1 < self.plan.roles[self.role].folders.len() {
            self.select(self.role, self.candidate + 1)
        } else {
            self.next_role()
        }
    }

    /// What follows from a step of the pass over the folder: what the pass asks
    /// for, or, when it is over, the next role.
    pub open spec fn with_pass(self, pass: PassView, action: PassActionView) -> (
        ScanView,
        ScanActionView,
    ) {
        if action is Finished {
            ScanView {
                stored: plus(self.stored, pass.stored as nat),
                changed: plus(self.changed, plus(pass.deleted, pass.updated as nat) as nat),
                ..self
            }.next_role()
        } else {
            (
                ScanView { stage: StageView::Pass(pass), ..self },
                ScanActionView::Pass {
                    role: self.role_name(),
                    folder: self.folder_name(),
                    action,
                },
            )
        }
    }

    /// The event is one that the scan waits for.
    pub open spec fn expects(self, event: ScanEventView) -> bool {
        match (self.stage, event) {
            (StageView::Select, ScanEventView::Done) => true,
            (StageView::Select, ScanEventView::Failed) => true,
            (StageView::Search, ScanEventView::Uids(_)) => true,
            (StageView::EmptyRows, ScanEventView::Rows(_)) => true,
            (StageView::EmptyDelete(_), ScanEventView::Done) => true,
            (StageView::Known(_), ScanEventView::Known(_)) => true,
            (StageView::Pass(pass), ScanEventView::Pass(e)) => pass.expects(e),
            _ => false,
        }
    }

    /// The state behind an event that the scan waits for, and what is to be done
    /// then.
    pub open spec fn after(self, event: ScanEventView) -> (ScanView, ScanActionView) {
        match (self.stage, event) {
            (StageView::Select, ScanEventView::Done) => (
                ScanView { stage: StageView::Search, ..self },
                ScanActionView::Search { role: self.role_name() },
            ),
            (StageView::Select, ScanEventView::Failed) => self.next_folder(),
            (StageView::Search, ScanEventView::Uids(uids)) => {
                let selected = limited(newest_first(uids), self.plan.limit);
                if selected.len() == 0 {
                    (
                        ScanView { stage: StageView::EmptyRows, ..self },
                        ScanActionView::LoadRows { role: self.role_name() },
                    )
                } else {
                    (
                        ScanView { stage: StageView::Known(selected), ..self },
                        ScanActionView::LoadKnown { role: self.role_name() },
                    )
                }
            },
            (StageView::EmptyRows, ScanEventView::Rows(rows)) => {
                let ids = gone(rows, Set::empty());
                (
                    ScanView { stage: StageView::EmptyDelete(ids.len() as usize), ..self },
                    ScanActionView::DeleteRows(ids),
                )
            },
            (StageView::EmptyDelete(n), ScanEventView::Done) => ScanView {
                changed: plus(self.changed, n as nat),
                ..self
            }.next_role(),
            (StageView::Known(selected), ScanEventView::Known(known)) => {
                let (pass, action) = fresh_pass(
                    self.plan.rules,
                    self.role_name(),
                    self.folder_name(),
                    selected,
                    known,
                ).go_on();
                self.with_pass(pass, action)
            },
            (StageView::Pass(pass), ScanEventView::Pass(e)) => {
                let (pass, action) = pass.after(e);
                self.with_pass(pass, action)
            },
            _ => (self, ScanActionView::Finished),
        }
    }
}

/// The state in which a scan starts.
pub open spec fn fresh_scan(plan: PlanView) -> ScanView {
    ScanView { plan, role: 0, candidate: 0, stage: StageView::Select, stored: 0, changed: 0 }
}

impl ImapScan {
    /// Starts a scan, and says what is to be done first.
    pub fn start(plan: ScanPlan) -> (r: (ImapScan, ScanAction))
        requires
            plan@.wf(),
        ensures
            (r.0@, r.1@) == fresh_scan(plan@).select(0, 0),
            r.0@.wf(),
    {
        let mut scan = ImapScan {
            plan,
            role: 0,
            candidate: 0,
            stage: Stage::Select,
            stored: 0,
            changed: 0,
        };
        assert(scan@.plan.roles[0].folders.len() > 0);
        let action = scan.select();
        (scan, action)
    }

    /// The name of the role that is being gone through.
    fn role_name(&self) -> (r: String)
        requires
            self@.wf(),
            !(self@.stage is Finished),
        ensures
            r@ == self@.role_name(),
    {
        copy(&self.plan.roles[self.role].role)
    }

    /// The name of the folder that is being gone through.
    fn folder_name(&self) -> (r: String)
        requires
            0 <= self@.role < self@.plan.roles.len(),
            0 <= self@.candidate < self@.plan.roles[self@.role].folders.len(),
        ensures
            r@ == self@.folder_name(),
    {
        copy(&self.plan.roles[self.role].folders[self.candidate])
    }

    /// Selects the folder that the scan is at.
    fn select(&mut self) -> (r: ScanAction)
        requires
            0 <= old(self)@.role < old(self)@.plan.roles.len(),
            0 <= old(self)@.candidate < old(self)@.plan.roles[old(self)@.role].folders.len(),
        ensures
            (final(self)@, r@) == old(self)@.select(old(self)@.role, old(self)@.candidate),
    {
        self.stage = Stage::Select;
        ScanAction::Select { folder: self.folder_name(), required: self.plan.required }
    }

    /// Computes [`ScanView::next_role`].
    fn next_role(&mut self) -> (r: ScanAction)
        requires
            old(self)@.plan.wf(),
            0 <= old(self)@.role < old(self)@.plan.roles.len(),
        ensures
            (final(self)@, r@) == old(self)@.next_role(),
    {
        if self.plan.roles.len() - self.role > 1 {
            self.role = self.role + 1;
            self.candidate = 0;
            assert(self@.plan.roles[self@.role].folders.len() > 0);
            self.select()
        } else {
            self.role = self.plan.roles.len();
            self.stage = Stage::Finished;
            ScanAction::Finished
        }
    }

    /// Computes [`ScanView::with_pass`].
    fn with_pass(&mut self, pass: FolderPass, action: PassAction) -> (r: ScanAction)
        requires
            old(self)@.wf(),
            !(old(self)@.stage is Finished),
        ensures
            (final(self)@, r@) == old(self)@.with_pass(pass@, action@),
    {
        match action {
            PassAction::Finished => {
                self.stored = self.stored.saturating_add(pass.stored());
                self.changed = self.changed.saturating_add(pass.changed());
                self.next_role()
            },
            action => {
                let role = self.role_name();
                let folder = self.folder_name();
                self.stage = Stage::Pass(pass);
                ScanAction::Pass { role, folder, action }
            },
        }
    }

    /// Tells the scan what happened. It says what is to be done next; an event
    /// that it does not wait for it ignores.
    pub fn step(&mut self, event: ScanEvent) -> (r: Option<ScanAction>)
        requires
            old(self)@.wf(),
        ensures
            final(self)@.wf(),
            match r {
                Some(action) => old(self)@.expects(event@) && (final(self)@, action@) == (old(
                    self)@.after(event@)),
                None => !old(self)@.expects(event@) && final(self)@ == old(self)@,
            },
    {
        proof {
            let s = self@;
            if s.role + 1 < s.plan.roles.len() {
                assert(s.plan.roles[s.role + 1].folders.len() > 0);
            }
        }
        let mut stage = Stage::Finished;
        std::mem::swap(&mut stage, &mut self.stage);
        match (stage, event) {
            (Stage::Select, ScanEvent::Done) => {
                self.stage = Stage::Search;
                Some(ScanAction::Search { role: self.role_name() })
            },
            (Stage::Select, ScanEvent::Failed) => {
                if self.plan.roles[self.role].folders.len() - self.candidate > 1 {
                    self.candidate = self.candidate + 1;
                    Some(self.select())
                } else {
                    Some(self.next_role())
                }
            },
            (Stage::Search, ScanEvent::Uids(uids)) => {
                let selected = newest_within(uids, self.plan.limit);
                let empty = selected.len() == 0;
                if empty {
                    self.stage = Stage::EmptyRows;
                    Some(ScanAction::LoadRows { role: self.role_name() })
                } else {
                    self.stage = Stage::Known(selected);
                    Some(ScanAction::LoadKnown { role: self.role_name() })
                }
            },
            (Stage::EmptyRows, ScanEvent::Rows(rows)) => {
                let none = vstd::hash_set::StringHashSet::new();
                let ids = missing_imap_rows(&rows, &none);
                self.stage = Stage::EmptyDelete(ids.len());
                Some(ScanAction::DeleteRows(ids))
            },
            (Stage::EmptyDelete(n), ScanEvent::Done) => {
                self.changed = self.changed.saturating_add(n);
                Some(self.next_role())
            },
            (Stage::Known(selected), ScanEvent::Known(known)) => {
                self.stage = Stage::Select;
                let role = self.role_name();
                let folder = self.folder_name();
                let (pass, action) = FolderPass::start(
                    self.plan.rules,
                    role.as_str(),
                    folder.as_str(),
                    &selected,
                    &known,
                );
                Some(self.with_pass(pass, action))
            },
            (Stage::Pass(pass), ScanEvent::Pass(event)) => {
                let mut pass = pass;
                match pass.step(event) {
                    Some(action) => {
                        self.stage = Stage::Select;
                        Some(self.with_pass(pass, action))
                    },
                    None => {
                        self.stage = Stage::Pass(pass);
                        None
                    },
                }
            },
            (stage, _) => {
                self.stage = stage;
                None
            },
        }
    }

    /// How many messages were stored.
    pub fn stored(&self) -> (r: usize)
        ensures
            r == self@.stored,
    {
        self.stored
    }

    /// How many rows changed or went.
    pub fn changed(&self) -> (r: usize)
        ensures
            r == self@.changed,
    {
        self.changed
    }
}

/// The newest of some messages, within a limit.
pub fn newest_within(uids: Vec<u32>, limit: Option<usize>) -> (r: Vec<u32>)
    ensures
        r@ == limited(newest_first(uids@), limit),
{
    let mut r = sort_newest_first(uids);
    if let Some(n) = limit {
        if r.len() > n {
            r.truncate(n);
        }
    }
    r
}

// ---------------------------------------------------------------------------
// Laws
// ---------------------------------------------------------------------------
impl ScanView {
    /// How many roles are left.
    pub open spec fn roles_left(self) -> nat {
        (self.plan.roles.len() - self.role) as nat
    }

    /// How far the folder at hand is from being done.
    pub open spec fn stage_rank(self) -> nat {
        match self.stage {
            StageView::Select => 5,
            StageView::Search => 4,
            StageView::Known(_) => 3,
            StageView::EmptyRows => 3,
            StageView::EmptyDelete(_) => 2,
            StageView::Pass(_) => 1,
            StageView::Finished => 0,
        }
    }

    /// How many names of the folder are left to be tried, or how far the pass is
    /// from its end.
    pub open spec fn stage_left(self) -> (nat, nat, nat, nat) {
        match self.stage {
            StageView::Select => (
                (self.plan.roles[self.role].folders.len() - self.candidate) as nat,
                0,
                0,
                0,
            ),
            StageView::Pass(pass) => (pass.stage(), pass.left(), pass.at_once(), pass.rank()),
            _ => (0, 0, 0, 0),
        }
    }
}

/// Law: every event that a scan waits for brings it nearer to its end, so a scan
/// ends.
pub proof fn scan_comes_to_an_end(scan: ScanView, event: ScanEventView)
    requires
        scan.wf(),
        scan.expects(event),
    ensures
        ({
            let next = scan.after(event).0;
            decreases_to!(
                scan.roles_left(), scan.stage_rank(), scan.stage_left().0, scan.stage_left().1,
                scan.stage_left().2, scan.stage_left().3
                => next.roles_left(), next.stage_rank(), next.stage_left().0, next.stage_left().1,
                next.stage_left().2, next.stage_left().3
            )
        }),
{
    match (scan.stage, event) {
        (StageView::Pass(pass), ScanEventView::Pass(e)) => {
            crate::folder_pass::pass_comes_to_an_end(pass, e);
        },
        _ => {},
    }
}

/// Law: a scan goes through the roles in order and through one folder of each:
/// it never goes back, and it tries another name of a folder only where one
/// could not be selected.
pub proof fn scan_goes_forward(scan: ScanView, event: ScanEventView)
    requires
        scan.wf(),
        scan.expects(event),
    ensures
        ({
            let next = scan.after(event).0;
            &&& next.plan == scan.plan
            &&& next.role == scan.role || next.role == scan.role + 1
            &&& next.role == scan.role && next.candidate != scan.candidate ==> {
                &&& scan.stage is Select
                &&& event is Failed
                &&& next.candidate == scan.candidate + 1
            }
            &&& next.role > scan.role && next.role < scan.plan.roles.len() ==> next.candidate == 0
        }),
{
}

/// Law: what a limit leaves out is never newer than what it keeps.
pub proof fn newest_messages_are_kept(uids: Seq<u32>, limit: Option<usize>)
    ensures
        ({
            let kept = limited(newest_first(uids), limit);
            &&& kept.len() <= uids.len()
            &&& limit matches Some(n) ==> kept.len() <= n
            &&& forall|i: int, j: int|
                0 <= i < kept.len() && kept.len() <= j < newest_first(uids).len()
                    ==> #[trigger] kept[i] >= #[trigger] newest_first(uids)[j]
            &&& newest_first(uids).to_multiset() == uids.to_multiset()
        }),
{
    broadcast use vstd::seq_lib::group_to_multiset_ensures;

    let newest = |a: u32, b: u32| a >= b;
    uids.lemma_sort_by_ensures(newest);
    let all = newest_first(uids);
    assert(all.to_multiset().len() == uids.to_multiset().len());
    let kept = limited(all, limit);
    assert forall|i: int, j: int|
        0 <= i < kept.len() && kept.len() <= j < all.len() implies #[trigger] kept[i]
        >= #[trigger] all[j] by {
        assert(newest(all[i], all[j]));
    }
}

/// Law: messages are looked at from the newest to the oldest, and a limit keeps as
/// many of the newest as it says, or all where there are no more.
pub proof fn the_newest_come_first(uids: Seq<u32>, limit: usize)
    ensures
        forall|i: int, j: int|
            0 <= i < j < newest_first(uids).len() ==> #[trigger] newest_first(uids)[i]
                >= #[trigger] newest_first(uids)[j],
        newest_first(uids).to_multiset() == uids.to_multiset(),
        limited(newest_first(uids), None) == newest_first(uids),
        uids.len() <= limit ==> limited(newest_first(uids), Some(limit)) == newest_first(uids),
        uids.len() > limit ==> limited(newest_first(uids), Some(limit)).len() == limit,
        forall|i: int|
            0 <= i < limited(newest_first(uids), Some(limit)).len() ==> #[trigger] limited(
                newest_first(uids),
                Some(limit),
            )[i] == newest_first(uids)[i],
{
    broadcast use vstd::seq_lib::group_to_multiset_ensures;

    let leq = |a: u32, b: u32| a >= b;
    uids.lemma_sort_by_ensures(leq);
    let sorted = newest_first(uids);
    assert(sorted.to_multiset().len() == uids.to_multiset().len());
    assert forall|i: int, j: int| 0 <= i < j < sorted.len() implies #[trigger] sorted[i]
        >= #[trigger] sorted[j] by {
        assert(leq(sorted[i], sorted[j]));
    }
}

/// Law: a sync keeps each folder under its own role: inbox, sent mail, trash and
/// archive, and nothing else. It leaves out no message, and it prunes.
pub proof fn a_sync_goes_through_four_roles()
    ensures
        sync_plan().roles.len() == 4,
        sync_plan().roles[0].role == "Inbox"@,
        sync_plan().roles[0].folders == seq!["INBOX"@],
        sync_plan().roles[1].role == "Sent"@,
        sync_plan().roles[1].folders == seq!["Sent"@, "Sent Items"@, "[Gmail]/Sent Mail"@],
        sync_plan().roles[2].role == "Trash"@,
        sync_plan().roles[2].folders == seq!["Trash"@, "Deleted Items"@, "[Gmail]/Trash"@],
        sync_plan().roles[3].role == "Archive"@,
        sync_plan().roles[3].folders == seq!["Archive"@, "Archives"@],
        sync_plan().limit is None,
        !sync_plan().required,
        sync_plan().rules.prune,
        sync_plan().rules.reopen_after_text,
        sync_plan().rules.flag_chunk == 100 && sync_plan().rules.body_chunk == 25,
{
}

/// Law: a poll looks at the thirty newest messages of the inbox, which has to be
/// there, and prunes nothing: what it does not look at may still be on the server.
pub proof fn a_poll_looks_at_the_inbox()
    ensures
        poll_plan().roles.len() == 1,
        poll_plan().roles[0] == sync_plan().roles[0],
        poll_plan().limit == Some(30usize),
        poll_plan().required,
        !poll_plan().rules.prune,
        !poll_plan().rules.reopen_after_text,
        poll_plan().rules.flag_chunk >= 30 && poll_plan().rules.body_chunk >= 30,
{
}

/// Law: whatever a scan asks for concerns the role and the folder that it is at.
pub proof fn a_scan_asks_about_its_folder(scan: ScanView, event: ScanEventView)
    requires
        scan.wf(),
        scan.expects(event),
    ensures
        ({
            let (next, action) = scan.after(event);
            let place = next.plan.roles[next.role];
            &&& action matches ScanActionView::Select { folder, required } ==> folder
                == place.folders[next.candidate] && required == scan.plan.required
            &&& action matches ScanActionView::Search { role } ==> role == place.role
            &&& action matches ScanActionView::LoadRows { role } ==> role == place.role
            &&& action matches ScanActionView::LoadKnown { role } ==> role == place.role
            &&& action matches ScanActionView::Pass { role, folder, .. } ==> role == place.role
                && folder == place.folders[next.candidate]
            &&& action is Finished <==> next.role == scan.plan.roles.len()
        }),
{
}

/// Law: a folder that can be selected is searched. What is found is gone over, from
/// the newest, within the limit, together with what is stored for the role; where
/// nothing is found, the stored rows of messages on a server go. Where no folder of a
/// role can be selected, nothing of that role changes.
pub proof fn folders_are_gone_over(scan: ScanView, event: ScanEventView)
    requires
        scan.wf(),
        scan.expects(event),
    ensures
        ({
            let (next, action) = scan.after(event);
            &&& scan.stage is Select && event is Done ==> action is Search && next.role
                == scan.role && next.candidate == scan.candidate
            &&& scan.stage is Select && event is Failed ==> action is Select || action is Finished
            &&& event matches ScanEventView::Uids(uids) ==> {
                let kept = limited(newest_first(uids), scan.plan.limit);
                &&& kept.len() == 0 ==> action is LoadRows
                &&& kept.len() > 0 ==> action is LoadKnown && next.stage == StageView::Known(kept)
            }
            &&& event matches ScanEventView::Rows(rows) ==> action == ScanActionView::DeleteRows(
                gone(rows, Set::empty()),
            )
            &&& event matches ScanEventView::Known(known) ==> {
                let (pass, first) = fresh_pass(
                    scan.plan.rules,
                    scan.plan.roles[scan.role].role,
                    scan.plan.roles[scan.role].folders[scan.candidate],
                    scan.stage->Known_0,
                    known,
                ).go_on();
                &&& !(first is Finished) ==> action == (ScanActionView::Pass {
                    role: scan.plan.roles[scan.role].role,
                    folder: scan.plan.roles[scan.role].folders[scan.candidate],
                    action: first,
                })
                &&& !(first is Finished) ==> next.stage == StageView::Pass(pass)
                &&& first is Finished ==> next.role == scan.role + 1
            }
            &&& event matches ScanEventView::Pass(e) ==> {
                let (pass, step) = scan.stage->Pass_0.after(e);
                &&& !(step is Finished) ==> action is Pass && action->action == step && next.stage
                    == StageView::Pass(pass)
                &&& step is Finished ==> next.role == scan.role + 1
            }
        }),
{
}

/// Law: a scan counts what the passes over its folders counted, and the rows that
/// went because a folder was empty, each once.
pub proof fn a_scan_counts_what_was_done(scan: ScanView, event: ScanEventView)
    requires
        scan.wf(),
        scan.expects(event),
    ensures
        ({
            let next = scan.after(event).0;
            &&& (scan.stage is EmptyDelete && scan.changed + scan.stage->EmptyDelete_0
                <= usize::MAX) ==> next.changed == scan.changed + scan.stage->EmptyDelete_0
            &&& scan.stage is EmptyDelete ==> next.stored == scan.stored
            &&& event matches ScanEventView::Rows(rows) ==> next.stage == StageView::EmptyDelete(
                gone(rows, Set::empty()).len() as usize,
            )
            &&& event matches ScanEventView::Pass(e) ==> {
                let (pass, step) = scan.stage->Pass_0.after(e);
                &&& step is Finished && scan.stored + pass.stored <= usize::MAX ==> next.stored
                    == scan.stored + pass.stored
                &&& step is Finished && scan.changed + pass.deleted + pass.updated <= usize::MAX
                    ==> next.changed == scan.changed + pass.deleted + pass.updated
                &&& !(step is Finished) ==> next.stored == scan.stored && next.changed
                    == scan.changed
            }
            &&& scan.stage is Select || scan.stage is Search || scan.stage is EmptyRows
                || scan.stage is Known ==> next.stored == scan.stored && next.changed
                == scan.changed
        }),
{
}

/// Law: a scan waits for what it asked for, and for nothing once it is over.
pub proof fn a_scan_waits_for_what_it_asked_for(scan: ScanView, event: ScanEventView)
    requires
        scan.wf(),
        scan.expects(event),
    ensures
        ({
            let (next, action) = scan.after(event);
            &&& action is Select ==> next.expects(ScanEventView::Done) && next.expects(
                ScanEventView::Failed,
            )
            &&& action is Search ==> forall|uids: Seq<u32>|
                #[trigger] next.expects(ScanEventView::Uids(uids))
            &&& action is LoadRows ==> forall|rows: Seq<(i64, Seq<char>)>|
                #[trigger] next.expects(ScanEventView::Rows(rows))
            &&& action is DeleteRows ==> next.expects(ScanEventView::Done)
            &&& action is LoadKnown ==> forall|known: Seq<Seq<char>>|
                #[trigger] next.expects(ScanEventView::Known(known))
            &&& action is Pass ==> forall|e: PassEventView|
                (#[trigger] next.expects(ScanEventView::Pass(e))) == next.stage->Pass_0.expects(e)
            &&& action is Finished ==> forall|e: ScanEventView| !(#[trigger] next.expects(e))
        }),
{
}

} // verus!
