use vstd::prelude::*;
use crate::options::{ShredError, ShredOptions};
use crate::plan::{pass_plan, PassKind};
use crate::writer::FileShred;

verus! {

/// What a path names when it is visited.
#[derive(Clone, Copy, Debug, PartialEq, Eq, Structural)]
pub enum TargetKind {
    File,
    Directory,
    Absent,
}

/// What to do with a path that was accepted.
#[derive(Clone, Copy, Debug, PartialEq, Eq, Structural)]
pub enum Visit {
    /// Run the pass plan over the file, then remove it if asked to.
    ShredFile,
    /// Shred each child, depth first, then remove the emptied directory if
    /// asked to.
    ExpandDirectory,
}

/// How a path of `kind` is treated. A directory without recursion is refused
/// before existence is looked at.
pub open spec fn spec_visit(options: ShredOptions, kind: TargetKind) -> Result<Visit, ShredError> {
    match kind {
        TargetKind::Directory => if options.recursive {
            Ok(Visit::ExpandDirectory)
        } else {
            Err(ShredError::DirectoryWithoutRecursive)
        },
        TargetKind::Absent => Err(ShredError::PathDoesntExist),
        TargetKind::File => Ok(Visit::ShredFile),
    }
}

/// The line that reports `message` on the progress stream.
pub open spec fn progress_line(message: Seq<char>) -> Seq<char> {
    "schred: "@ + message
}

/// The line that reports `message` on the error stream.
pub open spec fn error_line(message: Seq<char>) -> Seq<char> {
    "schred: ERROR: "@ + message
}

/// The decimal digits of `n`, most significant first.
pub open spec fn decimal(n: nat) -> Seq<char>
    decreases n,
{
    if n < 10 {
        seq!["0123456789"@[n as int]]
    } else {
        decimal(n / 10) + seq!["0123456789"@[(n % 10) as int]]
    }
}

/// The message that announces pass `number` of `total`.
pub open spec fn pass_message(number: nat, total: nat, kind: PassKind) -> Seq<char> {
    "Pass "@ + decimal(number) + "/"@ + decimal(total) + match kind {
        PassKind::Random => ": wiping with random data"@,
        PassKind::Zero => ": wiping with zeros"@,
    }
}

/// Renders `n` in decimal.
pub fn decimal_string(n: usize) -> (r: String)
    ensures
        r@ == decimal(n as nat),
    decreases n,
{
    let digits = "0123456789";
    proof {
        reveal_strlit("0123456789");
    }
    let d = n % 10;
    let digit = digits.substring_ascii(d, d + 1);
    assert(digit@ =~= seq!["0123456789"@[d as int]]);
    if n < 10 {
        digit.to_string()
    } else {
        let mut r = decimal_string(n / 10);
        r.append(digit);
        r
    }
}

/// The shredding engine for one configuration.
pub struct Shredder {
    options: ShredOptions,
}

impl Shredder {
    pub closed spec fn spec_options(&self) -> ShredOptions {
        self.options
    }

    pub fn new(options: ShredOptions) -> (r: Self)
        ensures
            r.spec_options() == options,
    {
        Shredder { options }
    }

    /// The configuration this shredder runs with.
    pub fn options(&self) -> (r: &ShredOptions)
        ensures
            *r == self.spec_options(),
    {
        &self.options
    }

    /// Decides what to do with a path of `kind`: refuse it, shred it as a
    /// file, or expand it as a directory. A refusal happens before anything
    /// is touched.
    pub fn visit(&self, kind: TargetKind) -> (r: Result<Visit, ShredError>)
        ensures
            r == spec_visit(self.spec_options(), kind),
            kind == TargetKind::Absent ==> r == Err::<Visit, ShredError>(ShredError::PathDoesntExist),
            kind == TargetKind::Directory && !self.spec_options().recursive ==> r == Err::<Visit, ShredError>(
                ShredError::DirectoryWithoutRecursive,
            ),
    {
        match kind {
            TargetKind::Directory => if self.options.recursive {
                Ok(Visit::ExpandDirectory)
            } else {
                Err(ShredError::DirectoryWithoutRecursive)
            },
            TargetKind::Absent => Err(ShredError::PathDoesntExist),
            TargetKind::File => Ok(Visit::ShredFile),
        }
    }

    /// The overwrite of a file of `len` bytes, its length taken once before
    /// the first pass, with the passes of this configuration.
    pub fn file_shred(&self, len: usize) -> (r: FileShred)
        ensures
            r.wf(),
            r.spec_plan() == pass_plan(self.spec_options()),
            r.spec_len() == len,
            r.spec_history() == Seq::<Seq<u8>>::empty(),
            r.current_in_range(),
            r.spec_plan().len() > 0 ==> r.spec_current().spec_pos() == 0,
            r.spec_plan().len() > 0 ==> r.spec_current().spec_pending() == Seq::<u8>::empty(),
    {
        FileShred::new(&self.options, len)
    }

    /// Whether a file, once overwritten, or a directory, once every child is
    /// done, is to be removed.
    pub fn removes_after(&self) -> (r: bool)
        ensures
            r == self.spec_options().deallocate,
    {
        self.options.deallocate
    }

    /// The progress line for `message`, present only in verbose mode.
    pub fn log(&self, message: &str) -> (r: Option<String>)
        ensures
            self.spec_options().verbose ==> r is Some && r->Some_0@ == progress_line(message@),
            !self.spec_options().verbose ==> r is None,
    {
        if self.options.verbose {
            let mut line = String::from_str("schred: ");
            line.append(message);
            Some(line)
        } else {
            None
        }
    }

    /// The error line for `message`; errors are reported whatever the verbosity.
    pub fn error(&self, message: &str) -> (r: String)
        ensures
            r@ == error_line(message@),
    {
        let mut line = String::from_str("schred: ERROR: ");
        line.append(message);
        line
    }

    /// The progress line that announces the shred of the file `name`.
    pub fn shred_started(&self, name: &str) -> (r: Option<String>)
        ensures
            self.spec_options().verbose ==> r is Some && r->Some_0@ == progress_line(
                "Starting shred of file: "@ + name@,
            ),
            !self.spec_options().verbose ==> r is None,
    {
        let mut message = String::from_str("Starting shred of file: ");
        message.append(name);
        self.log(message.as_str())
    }

    /// The progress line that announces pass `number` of `total`, of `kind`.
    pub fn pass_started(&self, number: usize, total: usize, kind: PassKind) -> (r: Option<String>)
        ensures
            self.spec_options().verbose ==> r is Some && r->Some_0@ == progress_line(
                pass_message(number as nat, total as nat, kind),
            ),
            !self.spec_options().verbose ==> r is None,
    {
        let mut message = String::from_str("Pass ");
        let n = decimal_string(number);
        message.append(n.as_str());
        message.append("/");
        let t = decimal_string(total);
        message.append(t.as_str());
        match kind {
            PassKind::Random => message.append(": wiping with random data"),
            PassKind::Zero => message.append(": wiping with zeros"),
        }
        self.log(message.as_str())
    }

    /// The progress line that reports the removal of `name`.
    pub fn removed(&self, name: &str) -> (r: Option<String>)
        ensures
            self.spec_options().verbose ==> r is Some && r->Some_0@ == progress_line("Removed "@ + name@),
            !self.spec_options().verbose ==> r is None,
    {
        let mut message = String::from_str("Removed ");
        message.append(name);
        self.log(message.as_str())
    }

    /// The error line that reports that `name` could not be removed, for
    /// `cause`. A failed removal does not fail the shred.
    pub fn removal_failed(&self, name: &str, cause: &str) -> (r: String)
        ensures
            r@ == error_line("Failed to remove "@ + name@ + ": "@ + cause@),
    {
        let mut message = String::from_str("Failed to remove ");
        message.append(name);
        message.append(": ");
        message.append(cause);
        self.error(message.as_str())
    }
}


/// A model of a file tree: a file, or a directory with its children in the
/// order in which they are enumerated.
pub enum Entry {
    File,
    Dir(Seq<Entry>),
}

/// One observable effect of a shred on a tree, at a location given by the
/// child indices that lead to it from the root.
pub enum Step {
    Shred(Seq<nat>),
    Remove(Seq<nat>),
    Fail(ShredError),
}

pub open spec fn kind_of(e: Entry) -> TargetKind {
    match e {
        Entry::File => TargetKind::File,
        Entry::Dir(_) => TargetKind::Directory,
    }
}

/// Whether `loc` leads from the root of `e` to an entry.
pub open spec fn locates(e: Entry, loc: Seq<nat>) -> bool
    decreases loc.len(),
{
    if loc.len() == 0 {
        true
    } else {
        match e {
            Entry::File => false,
            Entry::Dir(cs) => loc[0] < cs.len() && locates(cs[loc[0] as int], loc.skip(1)),
        }
    }
}

/// The effects of shredding the entry `e` found at `at`, in order: the
/// decision of `spec_visit`, the children depth first, the removal last.
pub open spec fn walk(options: ShredOptions, e: Entry, at: Seq<nat>) -> Seq<Step>
    decreases e, 0nat,
{
    let removal = if options.deallocate { seq![Step::Remove(at)] } else { Seq::empty() };
    match spec_visit(options, kind_of(e)) {
        Err(err) => seq![Step::Fail(err)],
        Ok(Visit::ShredFile) => seq![Step::Shred(at)] + removal,
        Ok(Visit::ExpandDirectory) => match e {
            Entry::Dir(cs) => walk_children(options, cs, at, cs.len()) + removal,
            Entry::File => Seq::empty(),
        },
    }
}

/// The effects of shredding the first `n` children `cs` of the directory at `at`.
pub open spec fn walk_children(options: ShredOptions, cs: Seq<Entry>, at: Seq<nat>, n: nat) -> Seq<Step>
    decreases cs, n,
{
    if n == 0 || n > cs.len() {
        Seq::empty()
    } else {
        walk_children(options, cs, at, (n - 1) as nat) + walk(options, cs[n - 1], at.push((n - 1) as nat))
    }
}

/// Without recursion, shredding a directory fails at once: its only step is
/// the failure, so no child is shredded or removed, nor the directory itself.
pub proof fn lemma_directory_without_recursive_touches_nothing(options: ShredOptions, cs: Seq<Entry>, at: Seq<nat>)
    requires
        !options.recursive,
    ensures
        walk(options, Entry::Dir(cs), at) == seq![Step::Fail(ShredError::DirectoryWithoutRecursive)],
{
}

/// A path that does not exist is refused before anything is touched.
pub proof fn lemma_absent_path_refused(options: ShredOptions)
    ensures
        spec_visit(options, TargetKind::Absent) == Err::<Visit, ShredError>(ShredError::PathDoesntExist),
{
}

/// With recursion and removal, no step of a tree's shred fails, and the
/// last step removes the root.
pub proof fn lemma_walk_ends_with_root_removal(options: ShredOptions, e: Entry, at: Seq<nat>)
    requires
        options.recursive,
        options.deallocate,
    ensures
        walk(options, e, at).len() > 0,
        walk(options, e, at).last() == Step::Remove(at),
        forall|k: int| 0 <= k < walk(options, e, at).len() ==> !(#[trigger] walk(options, e, at)[k] is Fail),
    decreases e, 0nat,
{
    if let Entry::Dir(cs) = e {
        lemma_children_never_fail(options, cs, at, cs.len());
    }
}

proof fn lemma_children_never_fail(options: ShredOptions, cs: Seq<Entry>, at: Seq<nat>, n: nat)
    requires
        options.recursive,
        options.deallocate,
    ensures
        forall|k: int|
            0 <= k < walk_children(options, cs, at, n).len() ==> !(#[trigger] walk_children(
                options,
                cs,
                at,
                n,
            )[k] is Fail),
    decreases cs, n,
{
    if n > 0 && n <= cs.len() {
        lemma_children_never_fail(options, cs, at, (n - 1) as nat);
        lemma_walk_ends_with_root_removal(options, cs[n - 1], at.push((n - 1) as nat));
    }
}

/// Every step of the shred of child `i` is also a step of the shred of the
/// first `n` children.
proof fn lemma_children_hold_child(options: ShredOptions, cs: Seq<Entry>, at: Seq<nat>, n: nat, i: nat, j: int)
    requires
        i < n <= cs.len(),
        0 <= j < walk(options, cs[i as int], at.push(i)).len(),
    ensures
        exists|k: int|
            0 <= k < walk_children(options, cs, at, n).len() && walk_children(options, cs, at, n)[k] == walk(
                options,
                cs[i as int],
                at.push(i),
            )[j],
    decreases n,
{
    let prev = walk_children(options, cs, at, (n - 1) as nat);
    let whole = walk_children(options, cs, at, n);
    if i == n - 1 {
        assert(whole[prev.len() + j] == walk(options, cs[i as int], at.push(i))[j]);
    } else {
        lemma_children_hold_child(options, cs, at, (n - 1) as nat, i, j);
        let k = choose|k: int| 0 <= k < prev.len() && prev[k] == walk(options, cs[i as int], at.push(i))[j];
        assert(whole[k] == prev[k]);
    }
}

/// Shredding a directory tree with recursion and removal removes every entry
/// below the root before it removes the root, and fails nowhere; so once it
/// is over, neither the root nor anything under it remains.
pub proof fn lemma_recursive_deallocate_removes_all(options: ShredOptions, e: Entry, at: Seq<nat>, loc: Seq<nat>)
    requires
        options.recursive,
        options.deallocate,
        locates(e, loc),
    ensures
        walk(options, e, at).len() > 0,
        walk(options, e, at).last() == Step::Remove(at),
        forall|k: int| 0 <= k < walk(options, e, at).len() ==> !(#[trigger] walk(options, e, at)[k] is Fail),
        exists|k: int|
            0 <= k < walk(options, e, at).len() && walk(options, e, at)[k] == Step::Remove(at + loc) && (loc.len()
                > 0 ==> k < walk(options, e, at).len() - 1),
    decreases loc.len(),
{
    lemma_walk_ends_with_root_removal(options, e, at);
    let w = walk(options, e, at);
    if loc.len() == 0 {
        assert(at + loc =~= at);
        assert(w[w.len() - 1] == Step::Remove(at + loc));
    } else {
        if let Entry::Dir(cs) = e {
            let i = loc[0];
            let child = cs[i as int];
            let rest = loc.skip(1);
            lemma_recursive_deallocate_removes_all(options, child, at.push(i), rest);
            assert(at.push(i) + rest =~= at + loc);
            let cw = walk(options, child, at.push(i));
            let j = choose|j: int| 0 <= j < cw.len() && cw[j] == Step::Remove(at.push(i) + rest);
            lemma_children_hold_child(options, cs, at, cs.len(), i, j);
            let wc = walk_children(options, cs, at, cs.len());
            let k = choose|k: int| 0 <= k < wc.len() && wc[k] == cw[j];
            assert(w == wc + seq![Step::Remove(at)]);
            assert(w[k] == Step::Remove(at + loc));
        }
    }
}

} // verus!
