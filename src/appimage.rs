//! The pre-flight check that refuses an AppImage that was not extracted:
//! such a program mounts itself with FUSE, which fails inside the enclosure.
use vstd::prelude::*;
use crate::path::bytes_equal;

verus! {

/// `--appimage-help`
pub open spec fn help_marker() -> Seq<u8> {
    seq![45u8, 45u8, 97u8, 112u8, 112u8, 105u8, 109u8, 97u8, 103u8, 101u8, 45u8, 104u8, 101u8, 108u8, 112u8]
}

/// `--appimage-mount`
pub open spec fn mount_marker() -> Seq<u8> {
    seq![45u8, 45u8, 97u8, 112u8, 112u8, 105u8, 109u8, 97u8, 103u8, 101u8, 45u8, 109u8, 111u8, 117u8, 110u8, 116u8]
}

/// `--appimage-extract`
pub open spec fn extract_marker() -> Seq<u8> {
    seq![45u8, 45u8, 97u8, 112u8, 112u8, 105u8, 109u8, 97u8, 103u8, 101u8, 45u8, 101u8, 120u8, 116u8, 114u8, 97u8, 99u8, 116u8]
}

/// `--appimage-extract-and-run`
pub open spec fn run_marker() -> Seq<u8> {
    seq![45u8, 45u8, 97u8, 112u8, 112u8, 105u8, 109u8, 97u8, 103u8, 101u8, 45u8, 101u8, 120u8, 116u8, 114u8, 97u8, 99u8, 116u8, 45u8, 97u8, 110u8, 100u8, 45u8, 114u8, 117u8, 110u8]
}

/// `needle` occurs in `hay`.
pub open spec fn occurs_in(hay: Seq<u8>, needle: Seq<u8>) -> bool {
    exists|i: int|
        0 <= i && i + needle.len() <= hay.len() && #[trigger] hay.subrange(i, i + needle.len())
            == needle
}

/// The program carries all three AppImage options and the arguments do not
/// ask it to extract itself.
pub open spec fn refused(
    help: bool,
    mount: bool,
    extract: bool,
    args: Seq<Seq<u8>>,
) -> bool {
    help && mount && extract && !args.contains(run_marker())
}

/// `--appimage-help` as bytes.
fn help_marker_bytes() -> (r: Vec<u8>)
    ensures
        r@ == help_marker(),
{
    let r: Vec<u8> = vec![45u8, 45u8, 97u8, 112u8, 112u8, 105u8, 109u8, 97u8, 103u8, 101u8, 45u8, 104u8, 101u8, 108u8, 112u8];
    assert(r@ =~= help_marker());
    r
}

/// `--appimage-mount` as bytes.
fn mount_marker_bytes() -> (r: Vec<u8>)
    ensures
        r@ == mount_marker(),
{
    let r: Vec<u8> = vec![45u8, 45u8, 97u8, 112u8, 112u8, 105u8, 109u8, 97u8, 103u8, 101u8, 45u8, 109u8, 111u8, 117u8, 110u8, 116u8];
    assert(r@ =~= mount_marker());
    r
}

/// `--appimage-extract` as bytes.
fn extract_marker_bytes() -> (r: Vec<u8>)
    ensures
        r@ == extract_marker(),
{
    let r: Vec<u8> = vec![45u8, 45u8, 97u8, 112u8, 112u8, 105u8, 109u8, 97u8, 103u8, 101u8, 45u8, 101u8, 120u8, 116u8, 114u8, 97u8, 99u8, 116u8];
    assert(r@ =~= extract_marker());
    r
}

/// `--appimage-extract-and-run` as bytes.
fn run_marker_bytes() -> (r: Vec<u8>)
    ensures
        r@ == run_marker(),
{
    let r: Vec<u8> = vec![45u8, 45u8, 97u8, 112u8, 112u8, 105u8, 109u8, 97u8, 103u8, 101u8, 45u8, 101u8, 120u8, 116u8, 114u8, 97u8, 99u8, 116u8, 45u8, 97u8, 110u8, 100u8, 45u8, 114u8, 117u8, 110u8];
    assert(r@ =~= run_marker());
    r
}

/// Whether `needle` occurs in `hay`.
pub fn contains_bytes(hay: &[u8], needle: &[u8]) -> (r: bool)
    ensures
        r == occurs_in(hay@, needle@),
{
    let n = needle.len();
    if n > hay.len() {
        return false;
    }
    if n == 0 {
        assert(hay@.subrange(0int, 0int + needle@.len()) =~= needle@);
        return true;
    }
    let hl = hay.len();
    let last = hl - n;
    let mut i: usize = 0;
    while i <= last
        invariant
            n == needle@.len(),
            last + n == hay@.len(),
            hl == hay@.len(),
            i <= last + 1,
            n > 0,
            forall|j: int| 0 <= j < i ==> #[trigger] hay@.subrange(j, j + n) != needle@,
        decreases last + 1 - i,
    {
        let mut k: usize = 0;
        let mut same = true;
        assert(hay@.subrange(i as int, i as int) =~= needle@.subrange(0, 0));
        while k < n
            invariant
                n == needle@.len(),
                i + n <= hay@.len(),
                hl == hay@.len(),
                k <= n,
                same == (hay@.subrange(i as int, i + k) == needle@.subrange(0, k as int)),
            decreases n - k,
        {
            if hay[i + k] != needle[k] {
                same = false;
                assert(hay@.subrange(i as int, i + k + 1)[k as int] != needle@.subrange(0, k + 1)[k as int]);
            } else {
                assert(same ==> hay@.subrange(i as int, i + k + 1) =~= needle@.subrange(0, k + 1));
            }
            if !same {
                assert(hay@.subrange(i as int, i + k + 1) != needle@.subrange(0, k + 1)) by {
                    if hay@.subrange(i as int, i + k + 1) == needle@.subrange(0, k + 1) {
                        assert(hay@.subrange(i as int, i + k + 1).subrange(0, k as int) =~= hay@.subrange(i as int, i + k));
                        assert(needle@.subrange(0, k + 1).subrange(0, k as int) =~= needle@.subrange(0, k as int));
                    }
                }
            }
            k = k + 1;
        }
        assert(needle@.subrange(0, n as int) =~= needle@);
        if same {
            assert(hay@.subrange(i as int, i + n) == needle@);
            return true;
        }
        i = i + 1;
    }
    false
}

/// What a scan of a program's bytes has found so far.
#[derive(Clone, Copy, Debug, PartialEq, Eq, Structural)]
pub struct AppImageScan {
    pub found_help: bool,
    pub found_mount: bool,
    pub found_extract: bool,
}

impl AppImageScan {
    /// A scan that has found nothing.
    pub fn new() -> (r: AppImageScan)
        ensures
            !r.found_help && !r.found_mount && !r.found_extract,
    {
        AppImageScan { found_help: false, found_mount: false, found_extract: false }
    }

    /// Takes in one chunk of the program's bytes (a line of it, or all of it).
    pub fn observe(&mut self, chunk: &[u8])
        ensures
            final(self).found_help == (old(self).found_help || occurs_in(chunk@, help_marker())),
            final(self).found_mount == (old(self).found_mount || occurs_in(chunk@, mount_marker())),
            final(self).found_extract == (old(self).found_extract || occurs_in(
                chunk@,
                extract_marker(),
            )),
    {
        let help = help_marker_bytes();
        let mount = mount_marker_bytes();
        let extract = extract_marker_bytes();
        if contains_bytes(chunk, help.as_slice()) {
            self.found_help = true;
        }
        if contains_bytes(chunk, mount.as_slice()) {
            self.found_mount = true;
        }
        if contains_bytes(chunk, extract.as_slice()) {
            self.found_extract = true;
        }
    }

    /// Whether the program must be refused, given its arguments.
    pub fn refuses(&self, args: &Vec<Vec<u8>>) -> (r: bool)
        ensures
            r == refused(
                self.found_help,
                self.found_mount,
                self.found_extract,
                args@.map_values(|a: Vec<u8>| a@),
            ),
    {
        let ghost view = args@.map_values(|a: Vec<u8>| a@);
        if !(self.found_help && self.found_mount && self.found_extract) {
            return false;
        }
        let run = run_marker_bytes();
        let mut i: usize = 0;
        while i < args.len()
            invariant
                i <= args@.len(),
                view == args@.map_values(|a: Vec<u8>| a@),
                run@ == run_marker(),
                forall|j: int| 0 <= j < i ==> view[j] != run_marker(),
            decreases args@.len() - i,
        {
            if bytes_equal(args[i].as_slice(), run.as_slice()) {
                assert(view[i as int] == run_marker());
                return false;
            }
            i = i + 1;
        }
        true
    }
}

} // verus!
