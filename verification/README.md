# Emulated client

A client that takes part in group key agreement with MLS, for measurements with many users
at once. Each user creates and joins groups, invites, removes, refreshes keys, proposes and
commits, follows the commits of others, and logs what it did and how long it took.

`src/` is the verified library. It decides; it does no I/O and no cryptography. An operation
that needs the protocol engine, the server, a broker or an orchestrator says what is to be
asked and goes on with the answer, one function for each answer:

| Modules | What they hold |
| --- | --- |
| `user`, `services` | a user, its contacts and groups, and whom it asks for what |
| `membership`, `proposals` | changing a group |
| `commits` | sending a commit and confirming it |
| `inbox`, `incoming` | taking in messages, following welcomes and commits |
| `action`, `record`, `logbook` | what is logged, and how |
| `parameters`, `settings`, `startup` | the configuration and the users it asks for |
| `profiling`, `clock`, `chance` | CPU time, the clock and draws by chance |
| `compute_path`, `sorted_iter` | the update path of a commit, and merging of sorted lists |
| `mls`, `delivery`, `conversation`, `fraction`, `table`, `text` | the data that the others speak of |
| `laws` | what holds over several operations |

`app/` is the program around it: arguments, threads, files and the wiring to the services,
which it reaches through the traits of `app/collaborators.rs`. `tests/` runs the library.

The groups of a user are known to the library as the engine last reported them
(`mls::MlsState`). Probabilities are kept as the bits of their doubles (`fraction::Fraction`);
they compare as the doubles do, and `app/` prints them as numbers.
