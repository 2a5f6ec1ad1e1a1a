//! The path-access report written after a traced run.
use vstd::prelude::*;
use crate::path::{
    SLASH, bytes_equal, is_under, path_is_under, path_relative_to_root, push_all,
    relative_to_root,
};

verus! {

/// The line break.
pub const NEWLINE: u8 = 10;

/// The report lines after one more observed path: the path's line is added
/// when the path lies under `root` and its line is not there yet.
pub open spec fn observe_step(lines: Seq<Seq<u8>>, root: Seq<u8>, path: Option<Seq<u8>>) -> Seq<
    Seq<u8>,
> {
    match path {
        Some(p) => if is_under(p, root) && !lines.contains(relative_to_root(p, root)) {
            lines.push(relative_to_root(p, root))
        } else {
            lines
        },
        None => lines,
    }
}

/// The decimal digits of `n`, most significant first.
pub open spec fn decimal(n: nat) -> Seq<u8>
    decreases n,
{
    if n < 10 {
        seq![(48 + n) as u8]
    } else {
        decimal(n / 10).push((48 + n % 10) as u8)
    }
}

/// `# total: `
pub open spec fn total_prefix() -> Seq<u8> {
    seq![35u8, 32u8, 116u8, 111u8, 116u8, 97u8, 108u8, 58u8, 32u8]
}

/// Each line followed by a line break.
pub open spec fn joined_lines(lines: Seq<Seq<u8>>) -> Seq<u8>
    decreases lines.len(),
{
    if lines.len() == 0 {
        seq![]
    } else {
        joined_lines(lines.drop_last()) + lines.last().push(NEWLINE)
    }
}

/// The report's text: one line per path, then `# total: N`.
pub open spec fn rendered(lines: Seq<Seq<u8>>) -> Seq<u8> {
    joined_lines(lines) + total_prefix() + decimal(lines.len()).push(NEWLINE)
}

/// The distinct paths that a traced child touched under the enclosure root,
/// in the order first seen, each as the child saw it.
pub struct TraceReport {
    root: Vec<u8>,
    lines: Vec<Vec<u8>>,
}

impl TraceReport {
    /// The enclosure root that paths are reported under.
    pub closed spec fn root_view(&self) -> Seq<u8> {
        self.root@
    }

    /// The report lines so far.
    pub closed spec fn lines_view(&self) -> Seq<Seq<u8>> {
        self.lines@.map_values(|v: Vec<u8>| v@)
    }

    /// No line appears twice, and each is an in-enclosure path.
    pub open spec fn wf(&self) -> bool {
        &&& self.lines_view().no_duplicates()
        &&& forall|i: int|
            0 <= i < self.lines_view().len() ==> (#[trigger] self.lines_view()[i]).len() > 0
                && self.lines_view()[i][0] == SLASH
    }

    /// An empty report for the enclosure rooted at `root`.
    pub fn new(root: Vec<u8>) -> (r: TraceReport)
        ensures
            r.wf(),
            r.root_view() == root@,
            r.lines_view() == Seq::<Seq<u8>>::empty(),
    {
        let r = TraceReport { root, lines: Vec::new() };
        assert(r.lines_view() =~= Seq::<Seq<u8>>::empty());
        r
    }

    /// The number of distinct paths reported so far.
    pub fn total(&self) -> (n: usize)
        ensures
            n == self.lines_view().len(),
    {
        self.lines.len()
    }

    /// Whether `line` is already reported.
    fn has_line(&self, line: &[u8]) -> (b: bool)
        ensures
            b == self.lines_view().contains(line@),
    {
        let mut i: usize = 0;
        while i < self.lines.len()
            invariant
                i <= self.lines@.len(),
                forall|j: int| 0 <= j < i ==> self.lines_view()[j] != line@,
            decreases self.lines@.len() - i,
        {
            assert(self.lines_view()[i as int] == self.lines@[i as int]@);
            if bytes_equal(self.lines[i].as_slice(), line) {
                assert(self.lines_view()[i as int] == line@);
                return true;
            }
            i = i + 1;
        }
        false
    }

    /// Takes in one observed syscall path (`None` for a syscall without one).
    pub fn observe(&mut self, path: Option<&[u8]>)
        requires
            old(self).wf(),
        ensures
            final(self).wf(),
            final(self).root_view() == old(self).root_view(),
            final(self).lines_view() == observe_step(
                old(self).lines_view(),
                old(self).root_view(),
                match path {
                    Some(p) => Some(p@),
                    None => None,
                },
            ),
    {
        if let Some(p) = path {
            if path_is_under(p, self.root.as_slice()) {
                let line = path_relative_to_root(p, self.root.as_slice());
                if !self.has_line(line.as_slice()) {
                    let ghost before = self.lines_view();
                    self.lines.push(line);
                    assert(self.lines_view() =~= before.push(relative_to_root(p@, self.root@)))
                        by {
                        assert(self.lines@ == old(self).lines@.push(line));
                    }
                    proof {
                        lemma_push_keeps_unique(before, relative_to_root(p@, self.root@));
                    }
                }
            }
        }
    }

    /// The report's text.
    pub fn render(&self) -> (r: Vec<u8>)
        ensures
            r@ == rendered(self.lines_view()),
    {
        let mut r: Vec<u8> = Vec::new();
        let mut i: usize = 0;
        while i < self.lines.len()
            invariant
                i <= self.lines@.len(),
                r@ == joined_lines(self.lines_view().subrange(0, i as int)),
            decreases self.lines@.len() - i,
        {
            push_all(&mut r, self.lines[i].as_slice());
            r.push(NEWLINE);
            proof {
                let d = self.lines_view();
                assert(d.subrange(0, i + 1).drop_last() =~= d.subrange(0, i as int));
                assert(d.subrange(0, i + 1).last() == self.lines@[i as int]@);
            }
            i = i + 1;
        }
        assert(self.lines_view().subrange(0, i as int) =~= self.lines_view());
        let prefix: Vec<u8> = vec![35u8, 32u8, 116u8, 111u8, 116u8, 97u8, 108u8, 58u8, 32u8];
        assert(prefix@ =~= total_prefix());
        push_all(&mut r, prefix.as_slice());
        push_decimal(&mut r, self.lines.len() as u64);
        r.push(NEWLINE);
        r
    }
}

/// Appends the decimal digits of `n`.
pub fn push_decimal(out: &mut Vec<u8>, n: u64)
    ensures
        final(out)@ == old(out)@ + decimal(n as nat),
    decreases n,
{
    if n < 10 {
        out.push((48 + n) as u8);
    } else {
        push_decimal(out, n / 10);
        out.push((48 + n % 10) as u8);
    }
}

/// Adding a line that is not there yet keeps the lines free of duplicates.
proof fn lemma_push_keeps_unique(lines: Seq<Seq<u8>>, line: Seq<u8>)
    requires
        lines.no_duplicates(),
        !lines.contains(line),
    ensures
        lines.push(line).no_duplicates(),
{
    let s = lines.push(line);
    assert forall|i: int, j: int| 0 <= i < s.len() && 0 <= j < s.len() && i != j implies s[i]
        != s[j] by {
        if i == lines.len() as int {
            assert(lines[j] == s[j]);
        } else if j == lines.len() as int {
            assert(lines[i] == s[i]);
        }
    }
}

/// A path under the enclosure root is in the report once observed, and no
/// line of the report ever appears twice: observing keeps the lines unique.
pub proof fn lemma_report_lines_unique(lines: Seq<Seq<u8>>, root: Seq<u8>, path: Option<Seq<u8>>)
    requires
        lines.no_duplicates(),
    ensures
        observe_step(lines, root, path).no_duplicates(),
        forall|p: Seq<u8>|
            path == Some(p) && is_under(p, root) ==> #[trigger] observe_step(
                lines,
                root,
                path,
            ).contains(relative_to_root(p, root)),
{
    if let Some(p) = path {
        if is_under(p, root) && !lines.contains(relative_to_root(p, root)) {
            lemma_push_keeps_unique(lines, relative_to_root(p, root));
            let s = lines.push(relative_to_root(p, root));
            assert(s[s.len() - 1] == relative_to_root(p, root));
        }
    }
}

} // verus!
