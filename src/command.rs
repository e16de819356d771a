//! What the output of an external command becomes: an error, or lines.
use vstd::prelude::*;
use vstd::string::{StrSliceExecFns, StringExecFns};

verus! {

/// How many times `b` occurs in `s`.
pub open spec fn count_byte(s: Seq<u8>, b: u8) -> nat
    decreases s.len(),
{
    if s.len() == 0 {
        0
    } else {
        count_byte(s.drop_last(), b) + (if s.last() == b { 1nat } else { 0nat })
    }
}

/// Relies on `bytecount::count`: the number of bytes of `haystack` equal to
/// `needle`.
#[verifier::external_body]
fn count_bytes(haystack: &[u8], needle: u8) -> (r: usize)
    ensures
        r == count_byte(haystack@, needle),
{
    bytecount::count(haystack, needle)
}

/// Number of newlines in `stdout`.
pub fn count_newlines(stdout: &Vec<u8>) -> (r: usize)
    ensures
        r == count_byte(stdout@, 10u8),
{
    count_bytes(stdout.as_slice(), 10u8)
}

/// The text that lossy UTF-8 decoding makes of `b`.
pub uninterp spec fn lossy_of(b: Seq<u8>) -> Seq<char>;

/// Relies on `String::from_utf8_lossy`: the text of `b`, each invalid sequence
/// replaced; no bytes give no text, some bytes some text, and ASCII bytes
/// the same chars.
#[verifier::external_body]
fn lossy_string(b: &[u8]) -> (r: String)
    ensures
        r@ == lossy_of(b@),
        b@.len() == 0 <==> r@.len() == 0,
        (forall|i: int| 0 <= i < b@.len() ==> #[trigger] b@[i] < 128) ==> r@.len() == b@.len()
            && forall|i: int| 0 <= i < b@.len() ==> #[trigger] (r@[i] as u32) == b@[i] as u32,
{
    String::from_utf8_lossy(b).to_string()
}

/// A command that failed and said why on its error stream.
pub struct CommandError {
    /// Its error output, decoded.
    pub message: String,
}

/// Judges how a command ended: an error carrying its error output when it
/// failed and wrote on that stream; otherwise its output is to be used, a
/// silent failure meaning no results.
pub fn check_exit(success: bool, stderr: &Vec<u8>) -> (r: Result<(), CommandError>)
    ensures
        r is Err <==> (!success && stderr@.len() > 0),
        r matches Err(e) ==> e.message@ == lossy_of(stderr@),
{
    if !success && stderr.len() > 0 {
        Err(CommandError { message: lossy_string(stderr.as_slice()) })
    } else {
        Ok(())
    }
}

/// The pieces of `s` between newlines, as splitting on `\n` gives them: one
/// more than there are newlines.
pub open spec fn split_bytes(s: Seq<u8>) -> Seq<Seq<u8>>
    decreases s.len(),
{
    if s.len() == 0 {
        seq![Seq::empty()]
    } else {
        let r = split_bytes(s.drop_last());
        if s.last() == 10u8 {
            r.push(Seq::empty())
        } else {
            r.update(r.len() - 1, r.last().push(s.last()))
        }
    }
}

/// Splitting on newlines gives one piece more than there are newlines.
pub proof fn lemma_split_bytes_len(s: Seq<u8>)
    ensures
        split_bytes(s).len() == count_byte(s, 10u8) + 1,
    decreases s.len(),
{
    if s.len() > 0 {
        lemma_split_bytes_len(s.drop_last());
    }
}

/// The lines of `stdout`, split on `\n` and decoded.
pub fn split_lines(stdout: &Vec<u8>) -> (r: Vec<String>)
    ensures
        r.len() == split_bytes(stdout@).len(),
        forall|j: int| 0 <= j < r.len() ==> #[trigger] r@[j]@ == lossy_of(split_bytes(stdout@)[j]),
        forall|j: int|
            0 <= j < r.len() ==> (split_bytes(stdout@)[j].len() == 0 <==> #[trigger] r@[j]@.len()
                == 0),
{
    let mut out: Vec<String> = Vec::new();
    let mut cur: Vec<u8> = Vec::new();
    let ghost mut pieces: Seq<Seq<u8>> = Seq::empty();
    let mut i: usize = 0;
    proof {
        assert(stdout@.subrange(0, 0) =~= Seq::<u8>::empty());
    }
    while i < stdout.len()
        invariant
            i <= stdout.len(),
            split_bytes(stdout@.subrange(0, i as int)) == pieces.push(cur@),
            out.len() == pieces.len(),
            forall|j: int| 0 <= j < out.len() ==> #[trigger] out@[j]@ == lossy_of(pieces[j]),
            forall|j: int|
                0 <= j < out.len() ==> (pieces[j].len() == 0 <==> #[trigger] out@[j]@.len() == 0),
        decreases stdout.len() - i,
    {
        proof {
            assert(stdout@.subrange(0, i + 1).drop_last() =~= stdout@.subrange(0, i as int));
        }
        if stdout[i] == 10u8 {
            out.push(lossy_string(cur.as_slice()));
            proof {
                pieces = pieces.push(cur@);
            }
            cur = Vec::new();
        } else {
            let ghost prev = pieces.push(cur@);
            cur.push(stdout[i]);
            proof {
                assert(prev.update(prev.len() - 1, prev.last().push(stdout[i as int])) =~= pieces.push(
                    cur@,
                ));
            }
        }
        i = i + 1;
    }
    out.push(lossy_string(cur.as_slice()));
    proof {
        assert(stdout@.subrange(0, stdout.len() as int) =~= stdout@);
        pieces = pieces.push(cur@);
    }
    out
}

/// `lines` without its last element when that one is empty.
pub open spec fn trimmed(lines: Seq<Seq<char>>) -> Seq<Seq<char>> {
    if lines.len() > 0 && lines.last().len() == 0 {
        lines.drop_last()
    } else {
        lines
    }
}

/// Removes the last of `lines` when it is empty.
pub fn trim_trailing(lines: &mut Vec<String>)
    ensures
        ({
            let was_empty = old(lines)@.len() > 0 && old(lines)@.last()@.len() == 0;
            &&& was_empty ==> final(lines)@ == old(lines)@.drop_last()
            &&& !was_empty ==> final(lines)@ == old(lines)@
        }),
{
    let n = lines.len();
    if n > 0 && lines[n - 1].as_str().unicode_len() == 0 {
        proof {
            assert(lines@.last()@.len() == 0);
        }
        lines.pop();
    }
}

/// The texts of `lines`.
pub open spec fn texts(lines: Seq<String>) -> Seq<Seq<char>> {
    lines.map_values(|s: String| s@)
}

/// The decoded lines of `stdout`.
pub open spec fn decoded_lines(stdout: Seq<u8>) -> Seq<Seq<char>> {
    split_bytes(stdout).map_values(|p: Seq<u8>| lossy_of(p))
}

/// The first `number` decoded lines of `stdout`, without a last empty one.
pub open spec fn first_lines(stdout: Seq<u8>, number: int) -> Seq<Seq<char>> {
    let all = decoded_lines(stdout);
    trimmed(all.take(if number < all.len() { number } else { all.len() as int }))
}

/// The first `number` lines of `stdout`, decoded, without a last empty one.
pub fn truncate_stdout(stdout: &Vec<u8>, number: usize) -> (r: Vec<String>)
    ensures
        texts(r@) == first_lines(stdout@, number as int),
        stdout@.len() == 0 ==> r@.len() == 0,
{
    let mut lines = split_lines(stdout);
    let ghost all = lines@;
    assert(texts(all) =~= decoded_lines(stdout@));
    proof {
        if stdout@.len() == 0 {
            assert(split_bytes(stdout@)[0].len() == 0);
        }
    }
    lines.truncate(number);
    let ghost taken = lines@;
    assert(texts(taken) =~= decoded_lines(stdout@).take(
        if number < all.len() { number as int } else { all.len() as int },
    ));
    trim_trailing(&mut lines);
    proof {
        if taken.len() > 0 && taken.last()@.len() == 0 {
            assert(texts(lines@) =~= texts(taken).drop_last());
        }
    }
    lines
}

/// Whether an output of `total` lines is kept in a file: only where a
/// threshold is set (not 0) and `total` exceeds it.
pub open spec fn spills(total: int, threshold: int) -> bool {
    threshold != 0 && total > threshold
}

/// Whether an output of `total` lines is kept in a file.
pub fn spill(total: usize, threshold: usize) -> (r: bool)
    ensures
        r == spills(total as int, threshold as int),
{
    threshold != 0 && total > threshold
}

/// What running a command shows: its number of lines, the lines to display,
/// and whether the whole output goes to a file.
pub struct ExecOutput {
    pub total: usize,
    pub lines: Vec<String>,
    pub spill: bool,
}

/// Turns the output of a command into what is shown: with a cap `number`,
/// its first `number` lines; without one, all of them, the whole output also
/// going to a file when its line count passes `threshold`. `total` is the
/// number of newlines either way.
pub fn exec_output(stdout: &Vec<u8>, number: Option<usize>, threshold: usize) -> (r: ExecOutput)
    ensures
        r.total == count_byte(stdout@, 10u8),
        number matches Some(n) ==> texts(r.lines@) == first_lines(stdout@, n as int) && !r.spill,
        number is None ==> texts(r.lines@) == trimmed(decoded_lines(stdout@)) && r.spill == spills(
            r.total as int,
            threshold as int,
        ),
        stdout@.len() == 0 ==> r.lines@.len() == 0,
{
    let total = count_newlines(stdout);
    match number {
        Some(n) => ExecOutput { total, lines: truncate_stdout(stdout, n), spill: false },
        None => {
            let spill = spill(total, threshold);
            let mut lines = split_lines(stdout);
            let ghost all = lines@;
            assert(texts(all) =~= decoded_lines(stdout@));
            proof {
                if stdout@.len() == 0 {
                    assert(split_bytes(stdout@)[0].len() == 0);
                }
            }
            trim_trailing(&mut lines);
            proof {
                if all.len() > 0 && all.last()@.len() == 0 {
                    assert(texts(lines@) =~= texts(all).drop_last());
                }
            }
            ExecOutput { total, lines, spill }
        },
    }
}

/// `args` joined with `_` between them.
pub open spec fn joined(args: Seq<Seq<char>>) -> Seq<char>
    decreases args.len(),
{
    if args.len() == 0 {
        Seq::empty()
    } else if args.len() == 1 {
        args[0]
    } else {
        joined(args.drop_last()) + seq!['_'] + args.last()
    }
}

/// The words of a command joined with `_`, the stem of the name of the file
/// that its output is kept in.
pub fn join_args(args: &Vec<String>) -> (r: String)
    ensures
        r@ == joined(texts(args@)),
{
    let mut out = String::new();
    let mut k: usize = 0;
    while k < args.len()
        invariant
            k <= args.len(),
            out@ == joined(texts(args@.subrange(0, k as int))),
        decreases args.len() - k,
    {
        proof {
            assert(texts(args@.subrange(0, k + 1)).drop_last() =~= texts(args@.subrange(0, k as int)));
        }
        let ghost prev = out@;
        if k > 0 {
            proof {
                reveal_strlit("_");
            }
            out.append("_");
        }
        out.append(args[k].as_str());
        proof {
            let t = texts(args@.subrange(0, k + 1));
            assert(t.last() == args@[k as int]@);
            if k > 0 {
                assert(out@ =~= prev + seq!['_'] + t.last());
            } else {
                assert(out@ =~= texts(args@.subrange(0, 1))[0]);
            }
        }
        k = k + 1;
    }
    proof {
        assert(args@.subrange(0, args.len() as int) =~= args@);
    }
    out
}

} // verus!
