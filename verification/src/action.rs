//! The actions of a group key agreement that a client carries out and logs.
use crate::profiling::Profiler;
use crate::text::{decimal, decimal_text, join, joined, texts};
use vstd::prelude::*;

verus! {

/// CPU time in microseconds that the parts of a commit took.
#[derive(Debug, Clone, Copy, PartialEq, Eq, Structural)]
pub struct CryptoTime {
    pub total: u128,
    pub validation: u128,
    pub apply_proposals: u128,
    pub tree: u128,
    pub path: u128,
    pub tree_hash: u128,
    pub parent_hash: u128,
    pub encrypt_path: u128,
    pub sign: u128,
    pub schedule: u128,
    pub welcome: u128,
    pub storage: u128,
    pub encrypt: u128,
    pub export: u128,
}

/// CPU time in microseconds that the parts of processing a commit took.
#[derive(Debug, Clone, Copy, PartialEq, Eq, Structural)]
pub struct ProcessCryptoTime {
    pub total: u128,
    pub decrypt: u128,
    pub verify: u128,
    pub validation: u128,
    pub apply_proposals: u128,
    pub tree: u128,
    pub path: u128,
    pub tree_hash: u128,
    pub parent_hash: u128,
    pub decrypt_path: u128,
    pub schedule: u128,
}

/// CPU time in microseconds that the parts of merging a commit took.
#[derive(Debug, Clone, Copy, PartialEq, Eq, Structural)]
pub struct MergeTime {
    pub total: u128,
    pub merge: u128,
    pub storage: u128,
}

impl CryptoTime {
    /// The times that a profile holds for a commit.
    pub open spec fn of(times: Map<Seq<char>, u128>) -> CryptoTime {
        CryptoTime {
            total: Profiler::time(times, "total"@),
            validation: Profiler::time(times, "validation"@),
            apply_proposals: Profiler::time(times, "apply_proposals"@),
            tree: Profiler::time(times, "tree"@),
            path: Profiler::time(times, "path"@),
            tree_hash: Profiler::time(times, "tree_hash"@),
            parent_hash: Profiler::time(times, "parent_hash"@),
            encrypt_path: Profiler::time(times, "encrypt_path"@),
            sign: Profiler::time(times, "sign"@),
            schedule: Profiler::time(times, "schedule"@),
            welcome: Profiler::time(times, "welcome"@),
            storage: Profiler::time(times, "storage"@),
            encrypt: Profiler::time(times, "encrypt"@),
            export: Profiler::time(times, "export"@),
        }
    }

    /// Reads the times of a commit from a profile.
    pub fn from_profile(prof: &Profiler) -> (r: CryptoTime)
        ensures
            r == CryptoTime::of(prof@),
    {
        CryptoTime {
            total: prof.get("total"),
            validation: prof.get("validation"),
            apply_proposals: prof.get("apply_proposals"),
            tree: prof.get("tree"),
            path: prof.get("path"),
            tree_hash: prof.get("tree_hash"),
            parent_hash: prof.get("parent_hash"),
            encrypt_path: prof.get("encrypt_path"),
            sign: prof.get("sign"),
            schedule: prof.get("schedule"),
            welcome: prof.get("welcome"),
            storage: prof.get("storage"),
            encrypt: prof.get("encrypt"),
            export: prof.get("export"),
        }
    }
}

impl ProcessCryptoTime {
    /// The times that a profile holds for processing a commit.
    pub open spec fn of(times: Map<Seq<char>, u128>) -> ProcessCryptoTime {
        ProcessCryptoTime {
            total: Profiler::time(times, "total"@),
            decrypt: Profiler::time(times, "decrypt"@),
            verify: Profiler::time(times, "verify"@),
            validation: Profiler::time(times, "validation"@),
            apply_proposals: Profiler::time(times, "apply_proposals"@),
            tree: Profiler::time(times, "tree"@),
            path: Profiler::time(times, "path"@),
            tree_hash: Profiler::time(times, "tree_hash"@),
            parent_hash: Profiler::time(times, "parent_hash"@),
            decrypt_path: Profiler::time(times, "decrypt_path"@),
            schedule: Profiler::time(times, "schedule"@),
        }
    }

    /// Reads the times of processing a commit from a profile.
    pub fn from_profile(prof: &Profiler) -> (r: ProcessCryptoTime)
        ensures
            r == ProcessCryptoTime::of(prof@),
    {
        ProcessCryptoTime {
            total: prof.get("total"),
            decrypt: prof.get("decrypt"),
            verify: prof.get("verify"),
            validation: prof.get("validation"),
            apply_proposals: prof.get("apply_proposals"),
            tree: prof.get("tree"),
            path: prof.get("path"),
            tree_hash: prof.get("tree_hash"),
            parent_hash: prof.get("parent_hash"),
            decrypt_path: prof.get("decrypt_path"),
            schedule: prof.get("schedule"),
        }
    }
}

impl MergeTime {
    /// The times that a profile holds for merging a commit.
    pub open spec fn of(times: Map<Seq<char>, u128>) -> MergeTime {
        MergeTime {
            total: Profiler::time(times, "merge_total"@),
            merge: Profiler::time(times, "merge"@),
            storage: Profiler::time(times, "merge_storage"@),
        }
    }

    /// Reads the times of merging a commit from a profile.
    pub fn from_profile(prof: &Profiler) -> (r: MergeTime)
        ensures
            r == MergeTime::of(prof@),
    {
        MergeTime {
            total: prof.get("merge_total"),
            merge: prof.get("merge"),
            storage: prof.get("merge_storage"),
        }
    }
}

/// An action of a client in a group.
#[derive(Debug, PartialEq)]
pub enum CGKAAction {
    /// Proposed action.
    Propose(Box<CGKAAction>),
    /// Proposals committed, size of commit.
    Commit(Vec<CGKAAction>, usize),
    /// Size of commit, size of group info.
    Join(usize, usize),
    /// Size of commit.
    Update(usize),
    /// Invited user, size of commit.
    Invite(String, usize),
    /// Removed user, size of commit.
    Remove(String, usize),
    /// User who committed.
    Process(String),
    /// User who proposed.
    StoreProp(String),
    /// User who committed, size of the welcome.
    Welcome(String, usize),
    /// Message size, time taken by the commit, time taken by the merge.
    DeepCommit(usize, CryptoTime, MergeTime),
    /// User who committed, time taken by processing, time taken by the merge.
    DeepProcess(String, ProcessCryptoTime, MergeTime),
    Create,
    /// Attempted commit.
    CommitAttempt(Box<CGKAAction>),
}

/// The words with one space between each two neighbours.
pub open spec fn spaced(words: Seq<Seq<char>>) -> Seq<char> {
    joined(words, " "@)
}

/// The numbers in decimal with one space between each two neighbours.
pub open spec fn numerals(numbers: Seq<u128>) -> Seq<char> {
    spaced(numbers.map_values(|n: u128| decimal(n as nat)))
}

fn numerals_text(numbers: &Vec<u128>) -> (r: String)
    ensures
        r@ == numerals(numbers@),
{
    let mut w: Vec<String> = Vec::new();
    let mut i: usize = 0;
    while i < numbers.len()
        invariant
            i <= numbers.len(),
            w.len() == i,
            forall|j: int| 0 <= j < i ==> #[trigger] w@[j]@ == decimal(numbers@[j] as nat),
        decreases numbers.len() - i,
    {
        w.push(decimal_text(numbers[i]));
        i += 1;
    }
    assert(texts(w@) =~= numbers@.map_values(|n: u128| decimal(n as nat)));
    join(&w, " ")
}

impl CGKAAction {
    /// The action as it is written to the log.
    pub open spec fn shown(self) -> Seq<char>
        decreases self,
    {
        match self {
            CGKAAction::Propose(action) => spaced(seq!["Propose"@, action.shown()]),
            CGKAAction::Commit(proposals, size) => spaced(
                seq!["Commit"@, decimal(proposals@.len()), decimal(size as nat)],
            ),
            CGKAAction::Join(c_size, gi_size) => spaced(
                seq!["Join"@, decimal(c_size as nat), decimal(gi_size as nat)],
            ),
            CGKAAction::Update(size) => spaced(seq!["Update"@, decimal(size as nat)]),
            CGKAAction::Invite(user, size) => spaced(seq!["Invite"@, user@, decimal(size as nat)]),
            CGKAAction::Remove(user, size) => spaced(seq!["Remove"@, user@, decimal(size as nat)]),
            CGKAAction::Process(user) => if user@.len() == 0 {
                "Process"@
            } else {
                spaced(seq!["Process"@, user@])
            },
            CGKAAction::StoreProp(user) => if user@.len() == 0 {
                "StoreProp"@
            } else {
                spaced(seq!["StoreProp"@, user@])
            },
            CGKAAction::Welcome(user, size) => if user@.len() == 0 {
                "Welcome"@
            } else {
                spaced(seq!["Welcome"@, user@, decimal(size as nat)])
            },
            CGKAAction::DeepCommit(size, crypto, merge) => spaced(
                seq![
                    "DeepCommit"@,
                    decimal(size as nat),
                    "||"@,
                    numerals(seq![
                        crypto.total,
                        crypto.validation,
                        crypto.apply_proposals,
                        crypto.tree,
                        crypto.path,
                        crypto.tree_hash,
                        crypto.parent_hash,
                        crypto.encrypt_path,
                        crypto.sign,
                        crypto.schedule,
                        crypto.welcome,
                    ]),
                    "||"@,
                    numerals(seq![crypto.storage, crypto.encrypt]),
                    "||"@,
                    decimal(crypto.export as nat),
                    "||"@,
                    numerals(seq![merge.total, merge.merge, merge.storage]),
                ],
            ),
            CGKAAction::DeepProcess(user, crypto, merge) => spaced(
                seq![
                    "DeepProcess"@,
                    user@,
                    "||"@,
                    numerals(seq![
                        crypto.total,
                        crypto.decrypt,
                        crypto.verify,
                        crypto.validation,
                        crypto.apply_proposals,
                        crypto.tree,
                        crypto.path,
                        crypto.tree_hash,
                        crypto.parent_hash,
                        crypto.decrypt_path,
                        crypto.schedule,
                    ]),
                    "||"@,
                    numerals(seq![merge.total, merge.merge, merge.storage]),
                ],
            ),
            CGKAAction::Create => "Create"@,
            CGKAAction::CommitAttempt(action) => spaced(seq!["CommitAttempt"@, action.shown()]),
        }
    }

    /// The two actions hold the same values.
    pub open spec fn alike(self, other: CGKAAction) -> bool
        decreases self,
    {
        match (self, other) {
            (CGKAAction::Propose(a), CGKAAction::Propose(b)) => a.alike(*b),
            (CGKAAction::Commit(p, m), CGKAAction::Commit(q, n)) => {
                &&& m == n
                &&& p@.len() == q@.len()
                &&& forall|i: int| 0 <= i < p@.len() ==> (#[trigger] p@[i]).alike(q@[i])
            },
            (CGKAAction::CommitAttempt(a), CGKAAction::CommitAttempt(b)) => a.alike(*b),
            (CGKAAction::Propose(_), _) => false,
            (CGKAAction::Commit(_, _), _) => false,
            (CGKAAction::CommitAttempt(_), _) => false,
            (a, b) => a == b,
        }
    }

    fn words2(a: &str, b: String) -> (r: String)
        ensures
            r@ == spaced(seq![a@, b@]),
    {
        let mut w: Vec<String> = Vec::new();
        w.push(a.to_owned());
        w.push(b);
        assert(texts(w@) =~= seq![a@, b@]);
        join(&w, " ")
    }

    fn words3(a: &str, b: String, c: String) -> (r: String)
        ensures
            r@ == spaced(seq![a@, b@, c@]),
    {
        let mut w: Vec<String> = Vec::new();
        w.push(a.to_owned());
        w.push(b);
        w.push(c);
        assert(texts(w@) =~= seq![a@, b@, c@]);
        join(&w, " ")
    }

    /// `word` alone where the user is not named, else `word` and the user.
    fn with_user(word: &str, user: &String) -> (r: String)
        ensures
            r@ == if user@.len() == 0 {
                word@
            } else {
                spaced(seq![word@, user@])
            },
    {
        if user.as_str().is_empty() {
            word.to_owned()
        } else {
            Self::words2(word, user.clone())
        }
    }

    fn deep_commit_text(size: usize, crypto: &CryptoTime, merge: &MergeTime) -> (r: String)
        ensures
            r@ == CGKAAction::DeepCommit(size, *crypto, *merge).shown(),
    {
        let mut w: Vec<String> = Vec::new();
        w.push("DeepCommit".to_owned());
        w.push(decimal_text(size as u128));
        w.push("||".to_owned());
        w.push(numerals_text(&vec![
            crypto.total,
            crypto.validation,
            crypto.apply_proposals,
            crypto.tree,
            crypto.path,
            crypto.tree_hash,
            crypto.parent_hash,
            crypto.encrypt_path,
            crypto.sign,
            crypto.schedule,
            crypto.welcome,
        ]));
        w.push("||".to_owned());
        w.push(numerals_text(&vec![crypto.storage, crypto.encrypt]));
        w.push("||".to_owned());
        w.push(decimal_text(crypto.export));
        w.push("||".to_owned());
        w.push(numerals_text(&vec![merge.total, merge.merge, merge.storage]));
        assert(texts(w@) =~= seq![
            "DeepCommit"@,
            decimal(size as nat),
            "||"@,
            numerals(seq![
                crypto.total,
                crypto.validation,
                crypto.apply_proposals,
                crypto.tree,
                crypto.path,
                crypto.tree_hash,
                crypto.parent_hash,
                crypto.encrypt_path,
                crypto.sign,
                crypto.schedule,
                crypto.welcome,
            ]),
            "||"@,
            numerals(seq![crypto.storage, crypto.encrypt]),
            "||"@,
            decimal(crypto.export as nat),
            "||"@,
            numerals(seq![merge.total, merge.merge, merge.storage]),
        ]);
        join(&w, " ")
    }

    fn deep_process_text(user: &String, crypto: &ProcessCryptoTime, merge: &MergeTime) -> (r: String)
        ensures
            r@ == CGKAAction::DeepProcess(*user, *crypto, *merge).shown(),
    {
        let mut w: Vec<String> = Vec::new();
        w.push("DeepProcess".to_owned());
        w.push(user.clone());
        w.push("||".to_owned());
        w.push(numerals_text(&vec![
            crypto.total,
            crypto.decrypt,
            crypto.verify,
            crypto.validation,
            crypto.apply_proposals,
            crypto.tree,
            crypto.path,
            crypto.tree_hash,
            crypto.parent_hash,
            crypto.decrypt_path,
            crypto.schedule,
        ]));
        w.push("||".to_owned());
        w.push(numerals_text(&vec![merge.total, merge.merge, merge.storage]));
        assert(texts(w@) =~= seq![
            "DeepProcess"@,
            user@,
            "||"@,
            numerals(seq![
                crypto.total,
                crypto.decrypt,
                crypto.verify,
                crypto.validation,
                crypto.apply_proposals,
                crypto.tree,
                crypto.path,
                crypto.tree_hash,
                crypto.parent_hash,
                crypto.decrypt_path,
                crypto.schedule,
            ]),
            "||"@,
            numerals(seq![merge.total, merge.merge, merge.storage]),
        ]);
        join(&w, " ")
    }

    /// Writes the action as it stands in the log.
    pub fn to_text(&self) -> (r: String)
        ensures
            r@ == self.shown(),
        decreases self,
    {
        match self {
            CGKAAction::Propose(action) => Self::words2("Propose", action.to_text()),
            CGKAAction::Commit(proposals, size) => Self::words3(
                "Commit",
                decimal_text(proposals.len() as u128),
                decimal_text(*size as u128),
            ),
            CGKAAction::Join(c_size, gi_size) => Self::words3(
                "Join",
                decimal_text(*c_size as u128),
                decimal_text(*gi_size as u128),
            ),
            CGKAAction::Update(size) => Self::words2("Update", decimal_text(*size as u128)),
            CGKAAction::Invite(user, size) => Self::words3(
                "Invite",
                user.clone(),
                decimal_text(*size as u128),
            ),
            CGKAAction::Remove(user, size) => Self::words3(
                "Remove",
                user.clone(),
                decimal_text(*size as u128),
            ),
            CGKAAction::Process(user) => Self::with_user("Process", user),
            CGKAAction::StoreProp(user) => Self::with_user("StoreProp", user),
            CGKAAction::Welcome(user, size) => {
                if user.as_str().is_empty() {
                    "Welcome".to_owned()
                } else {
                    Self::words3("Welcome", user.clone(), decimal_text(*size as u128))
                }
            },
            CGKAAction::DeepCommit(size, crypto, merge) => Self::deep_commit_text(
                *size,
                crypto,
                merge,
            ),
            CGKAAction::DeepProcess(user, crypto, merge) => Self::deep_process_text(
                user,
                crypto,
                merge,
            ),
            CGKAAction::Create => "Create".to_owned(),
            CGKAAction::CommitAttempt(action) => Self::words2("CommitAttempt", action.to_text()),
        }
    }
}

impl Clone for CGKAAction {
    fn clone(&self) -> (r: Self)
        ensures
            self.alike(r),
            r.shown() == self.shown(),
        decreases self,
    {
        match self {
            CGKAAction::Propose(action) => CGKAAction::Propose(Box::new((&**action).clone())),
            CGKAAction::Commit(proposals, size) => {
                let mut copies: Vec<CGKAAction> = Vec::new();
                let mut i: usize = 0;
                while i < proposals.len()
                    invariant
                        i <= proposals.len(),
                        copies.len() == i,
                        self matches CGKAAction::Commit(p, _) && *proposals == p,
                        forall|j: int| 0 <= j < i ==> (#[trigger] proposals@[j]).alike(copies@[j]),
                    decreases proposals.len() - i,
                {
                    copies.push(proposals[i].clone());
                    i += 1;
                }
                CGKAAction::Commit(copies, *size)
            },
            CGKAAction::Join(c_size, gi_size) => CGKAAction::Join(*c_size, *gi_size),
            CGKAAction::Update(size) => CGKAAction::Update(*size),
            CGKAAction::Invite(user, size) => CGKAAction::Invite(user.clone(), *size),
            CGKAAction::Remove(user, size) => CGKAAction::Remove(user.clone(), *size),
            CGKAAction::Process(user) => CGKAAction::Process(user.clone()),
            CGKAAction::StoreProp(user) => CGKAAction::StoreProp(user.clone()),
            CGKAAction::Welcome(user, size) => CGKAAction::Welcome(user.clone(), *size),
            CGKAAction::DeepCommit(size, crypto, merge) => CGKAAction::DeepCommit(
                *size,
                *crypto,
                *merge,
            ),
            CGKAAction::DeepProcess(user, crypto, merge) => CGKAAction::DeepProcess(
                user.clone(),
                *crypto,
                *merge,
            ),
            CGKAAction::Create => CGKAAction::Create,
            CGKAAction::CommitAttempt(action) => CGKAAction::CommitAttempt(
                Box::new((&**action).clone()),
            ),
        }
    }
}

} // verus!
