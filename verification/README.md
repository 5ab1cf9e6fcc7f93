# sulfite

An S3 client with multipart transfers, and a command-line tool for single objects and for batches
of keys from a CSV file. The decisions are verified with [Verus](https://github.com/verus-lang/verus).

- `src/` is the core. It plans multipart transfers, classifies errors, reads listings and object
  metadata, and decides what uploads, downloads, copies and batches do next. It talks to nothing:
  an exchange with the service is a plain value (`request::Call`), and an operation of several
  steps is a state machine that takes events and gives actions.
- `app/` is the `sulfite` command. It makes the calls, moves the bytes and drives the state
  machines.
- `tests/` runs the core on concrete values.

What holds of the core as a whole stands in the public proof functions of each module. Among them:

- A multipart upload that was created is completed or given up, and is created at most once.
- The wanted file of a download is never seen half done, and a failed download leaves no temporary
  file.
- The parts of a plan cover an object without gap or overlap, within the limits of S3.
- A download in parts gives back what was uploaded in parts.
- A part whose answer declares another range, or holds more or fewer bytes, is neither sent on nor
  counted as received.
- By Unix path rules, the local path for a key of a manifest never leads out of the local directory.
- By default a batch overwrites; asked to skip, it leaves alone what seems unchanged.
