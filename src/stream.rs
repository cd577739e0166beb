use vstd::prelude::*;
use crate::decimal::{parse_spec, parse_text};
use crate::tag::TypeTag;
use crate::text::same_text;
use crate::value::{decode_spec, encode_spec, Value};

verus! {

/// The input line that ends writing.
pub open spec fn sentinel() -> Seq<char> {
    seq!['q']
}

/// What writing does with one input line.
#[derive(Debug)]
pub enum LineAction {
    /// The line is the sentinel: stop reading input.
    Stop,
    /// Append these bytes to the file.
    Append(Vec<u8>),
    /// The line is not a number of the chosen type: report it and go on.
    Reject,
}

/// Whether `line` is the sentinel that ends writing.
pub fn is_sentinel(line: &str) -> (r: bool)
    ensures
        r == (line@ == sentinel()),
{
    proof {
        reveal_strlit("q");
    }
    let r = same_text(line, "q");
    assert("q"@ =~= sentinel());
    r
}

/// What to do with the input line `line`, given what reading it as a number gave.
pub fn write_step(line: &str, parsed: Option<Value>) -> (r: LineAction)
    ensures
        line@ == sentinel() ==> r is Stop,
        line@ != sentinel() ==> match parsed {
            Some(v) => r matches LineAction::Append(b) && b@ == encode_spec(v),
            None => r is Reject,
        },
{
    if is_sentinel(line) {
        LineAction::Stop
    } else {
        match parsed {
            Some(v) => LineAction::Append(v.encode()),
            None => LineAction::Reject,
        }
    }
}

/// The report for an input line that is not a number of the chosen type.
pub fn reject_message(line: &str) -> (r: String)
    ensures
        r@ == seq!['\''] + line@ + "' is not a valid input"@,
{
    proof {
        reveal_strlit("'");
    }
    let mut r = String::from_str("'");
    r.append(line);
    r.append("' is not a valid input");
    r
}

/// The bytes that writing values of type `tag` puts in the file for the input `lines`:
/// each line that denotes a value adds its encoding, until the sentinel.
pub open spec fn written(tag: TypeTag, lines: Seq<Seq<char>>) -> Seq<u8>
    decreases lines.len(),
{
    if lines.len() == 0 || lines[0] == sentinel() {
        Seq::empty()
    } else {
        let head = match parse_spec(tag, lines[0]) {
            Some(v) => encode_spec(v),
            None => Seq::empty(),
        };
        head + written(tag, lines.drop_first())
    }
}

/// The text of each line.
pub open spec fn texts(lines: Seq<String>) -> Seq<Seq<char>> {
    lines.map_values(|l: String| l@)
}

/// The file content that writing integers of type `tag` makes from the input `lines`.
pub fn encode_lines(tag: TypeTag, lines: &Vec<String>) -> (r: Vec<u8>)
    requires
        !tag.floating(),
    ensures
        r@ == written(tag, texts(lines@)),
{
    let ghost all = texts(lines@);
    let mut out: Vec<u8> = Vec::new();
    let mut i: usize = 0;
    proof {
        assert(all.subrange(0, all.len() as int) =~= all);
    }
    while i < lines.len()
        invariant
            i <= lines@.len(),
            all == texts(lines@),
            !tag.floating(),
            out@ + written(tag, all.subrange(i as int, all.len() as int)) == written(tag, all),
        decreases lines@.len() - i,
    {
        let line: &str = lines[i].as_str();
        let ghost rest = all.subrange(i as int, all.len() as int);
        proof {
            assert(rest[0] == line@);
            assert(rest.drop_first() =~= all.subrange(i + 1, all.len() as int));
        }
        match write_step(line, parse_text(tag, line)) {
            LineAction::Stop => {
                assert(out@ =~= out@ + written(tag, rest));
                return out;
            },
            LineAction::Append(b) => {
                let mut b = b;
                proof {
                    assert(out@ + b@ + written(tag, rest.drop_first()) =~= out@ + written(tag, rest));
                }
                out.append(&mut b);
            },
            LineAction::Reject => {
                assert(out@ + written(tag, rest.drop_first()) =~= out@ + written(tag, rest));
            },
        }
        i = i + 1;
    }
    assert(out@ + written(tag, all.subrange(i as int, all.len() as int)) =~= out@);
    out
}

/// The value in a chunk that a read of `tag.width()` bytes filled: none when the
/// chunk is empty (end of file) or short (a truncated last value).
pub fn read_step(tag: TypeTag, chunk: &[u8]) -> (r: Option<Value>)
    ensures
        chunk@.len() == tag.width() ==> r == Some(decode_spec(tag, chunk@)),
        chunk@.len() != tag.width() ==> r is None,
{
    if chunk.len() == tag.byte_width() {
        Some(Value::decode(tag, chunk))
    } else {
        None
    }
}

/// The `i`-th chunk of `w` bytes of `bytes`.
pub open spec fn chunk(bytes: Seq<u8>, w: nat, i: int) -> Seq<u8> {
    bytes.subrange(i * w, i * w + w)
}

/// The values of type `tag` that a file with content `bytes` holds, in file order;
/// a truncated last chunk holds none.
pub fn decode_all(tag: TypeTag, bytes: &[u8]) -> (r: Vec<Value>)
    ensures
        r@.len() == bytes@.len() / tag.width(),
        forall|i: int|
            0 <= i < r@.len() ==> r@[i] == decode_spec(tag, #[trigger] chunk(bytes@, tag.width(), i)),
{
    let w = tag.byte_width();
    proof {
        tag.lemma_modulus();
    }
    let n: usize = bytes.len();
    let count: usize = n / w;
    let mut out: Vec<Value> = Vec::new();
    let mut i: usize = 0;
    while i < count
        invariant
            i <= count,
            n == bytes@.len(),
            w == tag.width(),
            1 <= w <= 16,
            count == bytes@.len() as int / (w as int),
            out@.len() == i,
            forall|j: int|
                0 <= j < i ==> out@[j] == decode_spec(tag, #[trigger] chunk(bytes@, tag.width(), j)),
        decreases count - i,
    {
        proof {
            assert(i * w + w <= bytes@.len()) by (nonlinear_arith)
                requires
                    i < count,
                    count == bytes@.len() as int / (w as int),
                    w >= 1,
            ;
        }
        let start: usize = i * w;
        let piece: &[u8] = &bytes[start..start + w];
        assert(piece@ == chunk(bytes@, tag.width(), i as int));
        out.push(Value::decode(tag, piece));
        i = i + 1;
    }
    out
}

} // verus!
