//! Collects a directory's candidate binaries in a reproducible order.
//!
//! Listing the directory is the caller's work; this module holds the
//! decisions: which entries are kept (those whose leading bytes classify as
//! ELF), and the order the report presents them in — lexicographic by path,
//! since directory iteration order is not stable across platforms or runs.

use vstd::prelude::*;
use crate::classify::{is_elf, is_elf_bytes};
use crate::strutil::{lemma_lex_leq_total, lemma_lex_leq_trans, lex_leq, str_lex_le};

verus! {

/// The classification a kept file carries.
pub enum Filetype {
    ELF,
}

/// One kept candidate: its full path and its classification.
pub struct Files {
    pub fullpath: String,
    pub filetype: Filetype,
}

/// A directory's worth of candidates.
pub struct Libdir {
    pub dir: String,
    pub files: Vec<Files>,
}

/// Whether the kept files stand in lexicographic path order.
pub open spec fn files_sorted(fs: Seq<Files>) -> bool {
    forall|i: int, j: int|
        0 <= i < j < fs.len() ==> lex_leq(
            (#[trigger] fs[i]).fullpath@,
            (#[trigger] fs[j]).fullpath@,
        )
}

/// Where a new candidate lands: after every kept file whose path precedes
/// it, before the first whose path follows it.
pub open spec fn sorted_insert(fs: Seq<Files>, f: Files) -> Seq<Files>
    decreases fs.len(),
{
    if fs.len() == 0 {
        seq![f]
    } else if lex_leq(fs[0].fullpath@, f.fullpath@) {
        seq![fs[0]] + sorted_insert(fs.drop_first(), f)
    } else {
        seq![f] + fs
    }
}

proof fn lemma_sorted_insert_at(fs: Seq<Files>, f: Files, j: int)
    requires
        0 <= j <= fs.len(),
        forall|k: int| 0 <= k < j ==> lex_leq((#[trigger] fs[k]).fullpath@, f.fullpath@),
        j < fs.len() ==> !lex_leq(fs[j].fullpath@, f.fullpath@),
    ensures
        sorted_insert(fs, f) == fs.subrange(0, j) + seq![f] + fs.subrange(j, fs.len() as int),
    decreases fs.len(),
{
    if fs.len() == 0 {
        assert(sorted_insert(fs, f) =~= fs.subrange(0, j) + seq![f] + fs.subrange(
            j,
            fs.len() as int,
        ));
    } else if j == 0 {
        assert(sorted_insert(fs, f) =~= fs.subrange(0, 0) + seq![f] + fs.subrange(
            0,
            fs.len() as int,
        ));
    } else {
        let rest = fs.drop_first();
        assert(forall|k: int|
            0 <= k < j - 1 ==> lex_leq((#[trigger] rest[k]).fullpath@, f.fullpath@));
        lemma_sorted_insert_at(rest, f, j - 1);
        assert(rest.subrange(0, j - 1) =~= fs.subrange(1, j));
        assert(rest.subrange(j - 1, rest.len() as int) =~= fs.subrange(j, fs.len() as int));
        assert(sorted_insert(fs, f) =~= fs.subrange(0, j) + seq![f] + fs.subrange(
            j,
            fs.len() as int,
        ));
    }
}

proof fn lemma_insert_keeps_sorted(fs: Seq<Files>, f: Files, j: int)
    requires
        files_sorted(fs),
        0 <= j <= fs.len(),
        forall|k: int| 0 <= k < j ==> lex_leq((#[trigger] fs[k]).fullpath@, f.fullpath@),
        j < fs.len() ==> !lex_leq(fs[j].fullpath@, f.fullpath@),
    ensures
        files_sorted(fs.subrange(0, j) + seq![f] + fs.subrange(j, fs.len() as int)),
{
    let r = fs.subrange(0, j) + seq![f] + fs.subrange(j, fs.len() as int);
    if j < fs.len() {
        lemma_lex_leq_total(fs[j].fullpath@, f.fullpath@);
    }
    assert forall|a: int, b: int| 0 <= a < b < r.len() implies lex_leq(
        (#[trigger] r[a]).fullpath@,
        (#[trigger] r[b]).fullpath@,
    ) by {
        if a < j {
            assert(r[a] == fs[a]);
        } else if a == j {
            assert(r[a] == f);
        } else {
            assert(r[a] == fs[a - 1]);
        }
        if b < j {
            assert(r[b] == fs[b]);
        } else if b == j {
            assert(r[b] == f);
        } else {
            assert(r[b] == fs[b - 1]);
        }
        if b == j {
            assert(lex_leq(fs[a].fullpath@, f.fullpath@));
        } else if a == j {
            assert(lex_leq(f.fullpath@, fs[j].fullpath@));
            if b - 1 > j {
                lemma_lex_leq_trans(f.fullpath@, fs[j].fullpath@, fs[b - 1].fullpath@);
            }
        } else if a < j && b > j {
            assert(lex_leq(fs[a].fullpath@, fs[b - 1].fullpath@));
        }
    }
}

impl Libdir {
    /// An empty scan of the named directory.
    pub fn new(dirname: String) -> (r: Self)
        ensures
            r.dir@ == dirname@,
            r.files@ == Seq::<Files>::empty(),
    {
        let files: Vec<Files> = Vec::new();
        proof {
            assert(files@ =~= Seq::<Files>::empty());
        }
        Self { dir: dirname, files }
    }

    /// Considers one directory entry, handed as its path and the leading
    /// bytes the caller could read of it. An entry that classifies as ELF is
    /// kept, placed by lexicographic path order; any other leaves the scan
    /// unchanged.
    pub fn add_candidate(&mut self, fullpath: String, prefix: &Vec<u8>)
        ensures
            final(self).dir == old(self).dir,
            is_elf_bytes(prefix@) ==> final(self).files@ == sorted_insert(
                old(self).files@,
                Files { fullpath: fullpath, filetype: Filetype::ELF },
            ),
            !is_elf_bytes(prefix@) ==> *final(self) == *old(self),
            files_sorted(old(self).files@) ==> files_sorted(final(self).files@),
    {
        if !is_elf(prefix) {
            return ;
        }
        let f = Files { fullpath, filetype: Filetype::ELF };
        let ghost fv = f;
        let ghost oldfiles = self.files@;
        let n = self.files.len();
        let mut j: usize = 0;
        loop
            invariant
                j <= n,
                n == self.files@.len(),
                *self == *old(self),
                oldfiles == self.files@,
                fv == f,
                forall|k: int| 0 <= k < j ==> lex_leq((#[trigger] oldfiles[k]).fullpath@, fv.fullpath@),
            ensures
                j <= oldfiles.len(),
                *self == *old(self),
                fv == f,
                forall|k: int| 0 <= k < j ==> lex_leq((#[trigger] oldfiles[k]).fullpath@, fv.fullpath@),
                j < oldfiles.len() ==> !lex_leq(oldfiles[j as int].fullpath@, fv.fullpath@),
            decreases n - j,
        {
            if j == n {
                break ;
            }
            if !str_lex_le(self.files[j].fullpath.as_str(), f.fullpath.as_str()) {
                break ;
            }
            j += 1;
        }
        self.files.insert(j, f);
        proof {
            oldfiles.insert_ensures(j as int, fv);
            assert(self.files@ =~= oldfiles.subrange(0, j as int) + seq![fv] + oldfiles.subrange(
                j as int,
                oldfiles.len() as int,
            ));
            lemma_sorted_insert_at(oldfiles, fv, j as int);
            if files_sorted(oldfiles) {
                lemma_insert_keeps_sorted(oldfiles, fv, j as int);
            }
        }
    }
}

} // verus!
