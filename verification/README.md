# Mailwind

Mailwind is a local-first desktop mail client for several accounts at once: Gmail
over its API, and any other provider over IMAP and SMTP.

- `src/` is the mail logic, written in Verus: reading mails and message ids,
  conversations, naming messages, comparing a folder with what is stored, search
  and queries, accounts and their secrets, sign-in, composing and sending, moving
  and deleting. Every function states what it does, and the laws that relate
  several of them stand at the end of each module.
- `tests/` runs the library on concrete values, together with the crates that it
  calls.
- `app/` is the application around it: the database, the credential store, the
  connections, the threads and the window.

Work that goes back and forth between a server and a decision is a state machine
in `src/`: it says what is to be done next, is told what came of it, and goes on
from there. `app/` carries out what it is asked for.
