//! The reclaimable size of a directory, summed one directory listing at a
//! time. The caller lists the directory that `next_dir` hands out and gives
//! the entries to `absorb`; subdirectories are queued, every other entry adds
//! its own size, and an entry that could not be read adds nothing.
use vstd::prelude::*;

use crate::error::Error;

verus! {

/// One entry of a directory listing.
#[derive(Debug)]
pub enum ScanEntry {
    /// A subdirectory, to be listed in turn.
    Directory(String),
    /// A file or a symbolic link, with the size of the entry itself.
    Sized(u64),
    /// An entry whose metadata could not be read.
    Unreadable,
}

/// What an entry adds to the total by itself.
pub open spec fn contribution(e: ScanEntry) -> u64 {
    match e {
        ScanEntry::Sized(n) => n,
        _ => 0,
    }
}

/// The directories that a listing queues, in order.
pub open spec fn subdirs(entries: Seq<ScanEntry>) -> Seq<Seq<char>>
    decreases entries.len(),
{
    if entries.len() == 0 {
        Seq::empty()
    } else {
        subdirs(entries.drop_last()) + match entries.last() {
            ScanEntry::Directory(p) => seq![p@],
            _ => Seq::empty(),
        }
    }
}

/// The sum of a sequence of sizes.
pub open spec fn sum_sizes(s: Seq<u64>) -> nat
    decreases s.len(),
{
    if s.len() == 0 {
        0
    } else {
        sum_sizes(s.drop_last()) + s.last() as nat
    }
}

/// The sum of those sizes of `s` whose place is marked in `chosen`.
pub open spec fn sum_chosen(s: Seq<u64>, chosen: Seq<bool>) -> nat
    decreases s.len(),
{
    if s.len() == 0 {
        0
    } else {
        sum_chosen(s.drop_last(), chosen.drop_last()) + if chosen.len() > 0 && chosen.last() {
            s.last() as nat
        } else {
            0
        }
    }
}

/// A byte count as a `u64`: the count itself, or `u64::MAX` where it does not fit.
pub open spec fn capped(n: nat) -> u64 {
    if n > u64::MAX {
        u64::MAX
    } else {
        n as u64
    }
}

/// The state of a scan: the directories still to list, what each entry
/// listed so far added to the total (nothing for a subdirectory or an
/// unreadable entry), in order, whether any directory has been handed out
/// yet, and whether the directory last handed out is the root, that is the
/// first one handed out.
pub struct ScanModel {
    pub pending: Seq<Seq<char>>,
    pub counted: Seq<u64>,
    pub started: bool,
    pub at_root: bool,
}

/// A size computation in progress.
pub struct SizeScan {
    pending: Vec<String>,
    total: u64,
    started: bool,
    at_root: bool,
    counted: Ghost<Seq<u64>>,
}

impl View for SizeScan {
    type V = ScanModel;

    closed spec fn view(&self) -> ScanModel {
        ScanModel {
            pending: self.pending@.map_values(|s: String| s@),
            counted: self.counted@,
            started: self.started,
            at_root: self.at_root,
        }
    }
}

impl SizeScan {
    /// Whether the running total agrees with what has been counted.
    pub closed spec fn wf(&self) -> bool {
        &&& self.total == capped(sum_sizes(self.counted@))
        &&& (!self.started ==> !self.at_root)
    }

    /// A scan of `root`. Only a directory is listed: any other path has size 0.
    pub fn new(root: &str, root_is_dir: bool) -> (r: SizeScan)
        ensures
            r.wf(),
            r@.pending == (if root_is_dir {
                seq![root@]
            } else {
                Seq::empty()
            }),
            r@.counted == Seq::<u64>::empty(),
            !r@.started,
            !r@.at_root,
    {
        let mut pending: Vec<String> = Vec::new();
        if root_is_dir {
            pending.push(String::from_str(root));
        }
        let r = SizeScan { pending, total: 0, started: false, at_root: false, counted: Ghost(Seq::empty()) };
        assert(r@.pending =~= (if root_is_dir {
            seq![root@]
        } else {
            Seq::empty()
        }));
        r
    }

    /// The next directory to list, or `None` once the scan is complete. The
    /// first directory handed out is the root.
    pub fn next_dir(&mut self) -> (r: Option<String>)
        requires
            old(self).wf(),
        ensures
            final(self).wf(),
            final(self)@.counted == old(self)@.counted,
            old(self)@.pending.len() == 0 ==> r.is_none() && final(self)@ == old(self)@,
            old(self)@.pending.len() > 0 ==> (r matches Some(d) && d@ == old(self)@.pending.last()
                && final(self)@.pending == old(self)@.pending.drop_last() && final(self)@.started
                && final(self)@.at_root == !old(self)@.started),
    {
        let r = self.pending.pop();
        if r.is_some() {
            self.at_root = !self.started;
            self.started = true;
            assert(self@.pending =~= old(self)@.pending.drop_last());
        }
        r
    }

    /// Whether the directory last handed out is the root of the scan.
    pub fn at_root(&self) -> (r: bool)
        ensures
            r == self@.at_root,
    {
        self.at_root
    }

    /// Takes in the listing of the directory last handed out: queues its
    /// subdirectories and counts the size of each other entry.
    pub fn absorb(&mut self, entries: &Vec<ScanEntry>)
        requires
            old(self).wf(),
        ensures
            final(self).wf(),
            final(self)@.pending == old(self)@.pending + subdirs(entries@),
            final(self)@.counted == old(self)@.counted + entries@.map_values(
                |e: ScanEntry| contribution(e),
            ),
            final(self)@.at_root == old(self)@.at_root,
            final(self)@.started == old(self)@.started,
    {
        let ghost start = self@;
        for i in 0..entries.len()
            invariant
                self.wf(),
                self@.at_root == start.at_root,
                self@.started == start.started,
                self@.pending == start.pending + subdirs(entries@.take(i as int)),
                self@.counted == start.counted + entries@.take(i as int).map_values(
                    |e: ScanEntry| contribution(e),
                ),
        {
            let ghost before = self@;
            assert(entries@.take(i + 1).drop_last() =~= entries@.take(i as int));
            match &entries[i] {
                ScanEntry::Directory(p) => {
                    self.pending.push(p.clone());
                    assert(self@.pending =~= before.pending.push(p@));
                    proof {
                        let s = self.counted@;
                        assert(s.push(0).drop_last() =~= s);
                    }
                    self.counted = Ghost(self.counted@.push(0));
                },
                ScanEntry::Sized(n) => {
                    let n = *n;
                    proof {
                        let s = self.counted@;
                        assert(s.push(n).drop_last() =~= s);
                    }
                    self.total = if self.total > u64::MAX - n {
                        u64::MAX
                    } else {
                        self.total + n
                    };
                    self.counted = Ghost(self.counted@.push(n));
                },
                ScanEntry::Unreadable => {
                    proof {
                        let s = self.counted@;
                        assert(s.push(0).drop_last() =~= s);
                    }
                    self.counted = Ghost(self.counted@.push(0));
                },
            }
            assert(entries@.take(i + 1).map_values(|e: ScanEntry| contribution(e)) =~= entries@.take(
                i as int,
            ).map_values(|e: ScanEntry| contribution(e)).push(contribution(entries@[i as int])));
            assert(self@.counted =~= start.counted + entries@.take(i + 1).map_values(
                |e: ScanEntry| contribution(e),
            ));
            assert(self@.pending =~= start.pending + subdirs(entries@.take(i + 1)));
        }
        assert(entries@.take(entries.len() as int) =~= entries@);
    }

    /// Decides what a failed listing means. Failing to list the root ends the
    /// size computation with an error; a nested directory that cannot be
    /// listed counts as empty.
    pub fn listing_failed(&self, path: String, message: String) -> (r: Result<(), Error>)
        ensures
            r.is_err() == self@.at_root,
            r matches Err(Error::FileSystem { path: p, message: m }) ==> p == path && m == message,
    {
        if self.at_root {
            Err(Error::FileSystem { path, message })
        } else {
            Ok(())
        }
    }

    /// The size counted so far: the sum of all counted sizes, or `u64::MAX`
    /// where that does not fit.
    pub fn total(&self) -> (r: u64)
        requires
            self.wf(),
        ensures
            r == capped(sum_sizes(self@.counted)),
    {
        self.total
    }
}

proof fn lemma_chosen_le(s: Seq<u64>, chosen: Seq<bool>)
    ensures
        sum_chosen(s, chosen) <= sum_sizes(s),
    decreases s.len(),
{
    if s.len() > 0 {
        lemma_chosen_le(s.drop_last(), chosen.drop_last());
    }
}

/// The size of a directory is at least the total size of any selection of
/// the entries it contains.
pub proof fn lemma_size_covers_any_selection(s: Seq<u64>, chosen: Seq<bool>)
    ensures
        sum_chosen(s, chosen) <= sum_sizes(s),
        capped(sum_chosen(s, chosen)) <= capped(sum_sizes(s)),
{
    lemma_chosen_le(s, chosen);
}

} // verus!
