//! Domain names: sequences of labels, and their wire form with compression pointers.

use vstd::prelude::*;
use crate::error::{ArgumentError, DecodeError};

verus! {

/// The largest number of compression pointers followed while reading one name.
pub const MAX_POINTER_JUMPS: u32 = 20;

/// A domain name as its labels, leftmost first, without the root label.
#[derive(Clone, Debug, PartialEq, Eq)]
pub struct Name {
    pub labels: Vec<Vec<u8>>,
}

/// The labels held by a vector of byte vectors.
pub open spec fn labels_view(v: Seq<Vec<u8>>) -> Seq<Seq<u8>> {
    Seq::new(v.len(), |i: int| v[i]@)
}

impl View for Name {
    type V = Seq<Seq<u8>>;

    open spec fn view(&self) -> Seq<Seq<u8>> {
        labels_view(self.labels@)
    }
}

/// Every label has between 1 and 63 octets.
pub open spec fn labels_ok(labels: Seq<Seq<u8>>) -> bool {
    forall|i: int| 0 <= i < labels.len() ==> 1 <= #[trigger] labels[i].len() <= 63
}

/// The uncompressed wire form: each label behind its length octet, then a zero octet.
pub open spec fn encode_name(labels: Seq<Seq<u8>>) -> Seq<u8>
    decreases labels.len(),
{
    if labels.len() == 0 {
        seq![0u8]
    } else {
        seq![labels[0].len() as u8] + labels[0] + encode_name(labels.drop_first())
    }
}

/// The offset that the pointer at `pos` refers to.
pub open spec fn pointer_target(b: Seq<u8>, pos: int) -> int {
    (b[pos] as int - 0xC0) * 256 + b[pos + 1] as int
}

/// Reads a name from `pos` on, having already followed `jumps` pointers and collected `acc`.
/// `end` is the offset behind the name in the enclosing stream, once the first pointer fixed it.
pub open spec fn walk_name(
    b: Seq<u8>,
    pos: int,
    jumps: nat,
    acc: Seq<Seq<u8>>,
    end: Option<int>,
) -> Result<(Seq<Seq<u8>>, int), DecodeError>
    decreases MAX_POINTER_JUMPS as int - jumps, b.len() - pos,
{
    if pos < 0 || pos >= b.len() {
        Err(DecodeError::Truncated)
    } else if b[pos] == 0 {
        Ok((acc, if end is Some { end->0 } else { pos + 1 }))
    } else if b[pos] >= 0xC0 {
        if pos + 1 >= b.len() {
            Err(DecodeError::Truncated)
        } else if jumps >= MAX_POINTER_JUMPS {
            Err(DecodeError::PointerLoop)
        } else {
            walk_name(
                b,
                pointer_target(b, pos),
                jumps + 1,
                acc,
                Some(if end is Some { end->0 } else { pos + 2 }),
            )
        }
    } else if b[pos] > 63 {
        Err(DecodeError::InvalidLabel)
    } else if pos + 1 + b[pos] as int > b.len() {
        Err(DecodeError::Truncated)
    } else {
        walk_name(
            b,
            pos + 1 + b[pos] as int,
            jumps,
            acc.push(b.subrange(pos + 1, pos + 1 + b[pos] as int)),
            end,
        )
    }
}

/// The name that starts at `pos`, with the offset of the first octet behind it.
pub open spec fn parse_name(b: Seq<u8>, pos: int) -> Result<(Seq<Seq<u8>>, int), DecodeError> {
    walk_name(b, pos, 0, Seq::empty(), None)
}

/// How many pointers an unbounded reader follows from `pos` within `steps` steps,
/// as long as every length octet it meets is well formed.
pub open spec fn pointers_followed(b: Seq<u8>, pos: int, steps: nat) -> nat
    decreases steps,
{
    if steps == 0 || pos < 0 || pos >= b.len() || b[pos] == 0 {
        0
    } else if b[pos] >= 0xC0 {
        if pos + 1 >= b.len() {
            0
        } else {
            1 + pointers_followed(b, pointer_target(b, pos), (steps - 1) as nat)
        }
    } else if b[pos] > 63 || pos + 1 + b[pos] as int > b.len() {
        0
    } else {
        pointers_followed(b, pos + 1 + b[pos] as int, (steps - 1) as nat)
    }
}

proof fn lemma_deep_chain(
    b: Seq<u8>,
    pos: int,
    steps: nat,
    jumps: nat,
    acc: Seq<Seq<u8>>,
    end: Option<int>,
)
    requires
        jumps <= MAX_POINTER_JUMPS,
        jumps + pointers_followed(b, pos, steps) > MAX_POINTER_JUMPS,
    ensures
        walk_name(b, pos, jumps, acc, end) == Err::<(Seq<Seq<u8>>, int), _>(
            DecodeError::PointerLoop,
        ),
    decreases steps,
{
    if steps == 0 || pos < 0 || pos >= b.len() || b[pos] == 0 {
    } else if b[pos] >= 0xC0 {
        if pos + 1 < b.len() && jumps < MAX_POINTER_JUMPS {
            lemma_deep_chain(
                b,
                pointer_target(b, pos),
                (steps - 1) as nat,
                jumps + 1,
                acc,
                Some(if end is Some { end->0 } else { pos + 2 }),
            );
        }
    } else if b[pos] > 63 || pos + 1 + b[pos] as int > b.len() {
    } else {
        lemma_deep_chain(
            b,
            pos + 1 + b[pos] as int,
            (steps - 1) as nat,
            jumps,
            acc.push(b.subrange(pos + 1, pos + 1 + b[pos] as int)),
            end,
        );
    }
}

/// A name whose pointer chain is deeper than the limit is rejected as a pointer loop,
/// whatever lies behind the chain.
pub proof fn deep_pointer_chain_is_rejected(b: Seq<u8>, pos: int, steps: nat)
    requires
        pointers_followed(b, pos, steps) > MAX_POINTER_JUMPS,
    ensures
        parse_name(b, pos) == Err::<(Seq<Seq<u8>>, int), _>(DecodeError::PointerLoop),
{
    lemma_deep_chain(b, pos, steps, 0, Seq::empty(), None);
}

proof fn lemma_walk_end(b: Seq<u8>, pos: int, jumps: nat, acc: Seq<Seq<u8>>, end: Option<int>)
    requires
        jumps <= MAX_POINTER_JUMPS,
        end is Some ==> 0 <= end->0 <= b.len(),
        walk_name(b, pos, jumps, acc, end) is Ok,
    ensures
        0 <= walk_name(b, pos, jumps, acc, end)->Ok_0.1 <= b.len(),
    decreases MAX_POINTER_JUMPS as int - jumps, b.len() - pos,
{
    if pos < 0 || pos >= b.len() || b[pos] == 0 {
    } else if b[pos] >= 0xC0 {
        lemma_walk_end(
            b,
            pointer_target(b, pos),
            jumps + 1,
            acc,
            Some(if end is Some { end->0 } else { pos + 2 }),
        );
    } else {
        lemma_walk_end(
            b,
            pos + 1 + b[pos] as int,
            jumps,
            acc.push(b.subrange(pos + 1, pos + 1 + b[pos] as int)),
            end,
        );
    }
}

/// A name that can be read ends inside the buffer.
pub proof fn name_end_in_bounds(b: Seq<u8>, pos: int)
    requires
        parse_name(b, pos) is Ok,
    ensures
        0 <= parse_name(b, pos)->Ok_0.1 <= b.len(),
{
    lemma_walk_end(b, pos, 0, Seq::empty(), None);
}

proof fn lemma_walk_encoded(
    b: Seq<u8>,
    pos: int,
    labels: Seq<Seq<u8>>,
    jumps: nat,
    acc: Seq<Seq<u8>>,
    end: Option<int>,
)
    requires
        labels_ok(labels),
        0 <= pos,
        pos + encode_name(labels).len() <= b.len(),
        b.subrange(pos, pos + encode_name(labels).len()) == encode_name(labels),
    ensures
        walk_name(b, pos, jumps, acc, end) == Ok::<_, DecodeError>(
            (acc + labels, if end is Some { end->0 } else { pos + encode_name(labels).len() }),
        ),
    decreases labels.len(),
{
    let enc = encode_name(labels);
    let window = b.subrange(pos, pos + enc.len());
    assert(b[pos] == window[0]);
    if labels.len() == 0 {
        assert(acc + labels =~= acc);
    } else {
        let first = labels[0];
        let rest = labels.drop_first();
        let n = first.len() as int;
        assert(1 <= n <= 63);
        assert(enc[0] == n as u8);
        assert(enc.len() == 1 + n + encode_name(rest).len());
        assert(b.subrange(pos + 1, pos + 1 + n) =~= first) by {
            assert forall|i: int| 0 <= i < n implies b[pos + 1 + i] == first[i] by {
                assert(b[pos + 1 + i] == window[1 + i]);
                assert(enc[1 + i] == first[i]);
            }
        }
        assert(b.subrange(pos + 1 + n, pos + 1 + n + encode_name(rest).len()) =~= encode_name(
            rest,
        )) by {
            assert forall|i: int| 0 <= i < encode_name(rest).len() implies b[pos + 1 + n + i]
                == encode_name(rest)[i] by {
                assert(b[pos + 1 + n + i] == window[1 + n + i]);
                assert(enc[1 + n + i] == encode_name(rest)[i]);
            }
        }
        assert(labels_ok(rest)) by {
            assert forall|i: int| 0 <= i < rest.len() implies 1 <= #[trigger] rest[i].len()
                <= 63 by {
                assert(rest[i] == labels[i + 1]);
            }
        }
        lemma_walk_encoded(b, pos + 1 + n, rest, jumps, acc.push(first), end);
        assert(acc.push(first) + rest =~= acc + labels);
    }
}

/// Reading back an uncompressed name that lies at `pos` yields its labels and the offset behind it.
pub proof fn encoded_name_reads_back(b: Seq<u8>, pos: int, labels: Seq<Seq<u8>>)
    requires
        labels_ok(labels),
        0 <= pos,
        pos + encode_name(labels).len() <= b.len(),
        b.subrange(pos, pos + encode_name(labels).len()) == encode_name(labels),
    ensures
        parse_name(b, pos) == Ok::<_, DecodeError>((labels, pos + encode_name(labels).len())),
{
    lemma_walk_encoded(b, pos, labels, 0, Seq::empty(), None);
    assert(Seq::<Seq<u8>>::empty() + labels =~= labels);
}

/// Copies the octets `from..to` of `b`.
pub fn copy_range(b: &[u8], from: usize, to: usize) -> (out: Vec<u8>)
    requires
        from <= to <= b@.len(),
    ensures
        out@ == b@.subrange(from as int, to as int),
{
    let mut out: Vec<u8> = Vec::new();
    let mut i: usize = from;
    while i < to
        invariant
            from <= i <= to <= b@.len(),
            out@ == b@.subrange(from as int, i as int),
        decreases to - i,
    {
        out.push(b[i]);
        i += 1;
        assert(out@ =~= b@.subrange(from as int, i as int));
    }
    out
}

/// Whether a reader's result is the one that the layout prescribes.
pub open spec fn name_result_is(
    r: Result<(Name, usize), DecodeError>,
    want: Result<(Seq<Seq<u8>>, int), DecodeError>,
) -> bool {
    match (r, want) {
        (Ok((n, e)), Ok((labels, end))) => n@ == labels && e as int == end,
        (Err(x), Err(y)) => x == y,
        _ => false,
    }
}

/// Reads the name that starts at `start`, following compression pointers, at most
/// `MAX_POINTER_JUMPS` of them. Returns the name and the offset behind it in the stream.
pub fn read_name(b: &[u8], start: usize) -> (r: Result<(Name, usize), DecodeError>)
    ensures
        name_result_is(r, parse_name(b@, start as int)),
        r is Ok ==> r->Ok_0.1 <= b@.len(),
{
    let mut pos: usize = start;
    let mut jumps: u32 = 0;
    let mut labels: Vec<Vec<u8>> = Vec::new();
    let mut end: Option<usize> = None;
    assert(labels_view(labels@) =~= Seq::<Seq<u8>>::empty());
    loop
        invariant
            jumps <= MAX_POINTER_JUMPS,
            end is Some ==> end->0 <= b@.len(),
            parse_name(b@, start as int) == walk_name(
                b@,
                pos as int,
                jumps as nat,
                labels_view(labels@),
                if end is Some { Some(end->0 as int) } else { None },
            ),
        decreases MAX_POINTER_JUMPS - jumps, b@.len() - pos,
    {
        if pos >= b.len() {
            return Err(DecodeError::Truncated);
        }
        let len: u8 = b[pos];
        if len == 0 {
            let stop: usize = match end {
                Some(e) => e,
                None => pos + 1,
            };
            return Ok((Name { labels }, stop));
        } else if len >= 0xC0 {
            if pos + 1 >= b.len() {
                return Err(DecodeError::Truncated);
            }
            if jumps >= MAX_POINTER_JUMPS {
                return Err(DecodeError::PointerLoop);
            }
            if end.is_none() {
                end = Some(pos + 2);
            }
            pos = (len - 0xC0) as usize * 256 + b[pos + 1] as usize;
            jumps += 1;
        } else if len > 63 {
            return Err(DecodeError::InvalidLabel);
        } else if len as usize > b.len() - pos - 1 {
            return Err(DecodeError::Truncated);
        } else {
            let label = copy_range(b, pos + 1, pos + 1 + len as usize);
            proof {
                assert(labels_view(labels@.push(label)) =~= labels_view(labels@).push(label@));
            }
            labels.push(label);
            pos = pos + 1 + len as usize;
        }
    }
}

/// Appends the uncompressed wire form of `name` to `out`.
pub fn write_name(name: &Name, out: &mut Vec<u8>)
    requires
        labels_ok(name@),
    ensures
        final(out)@ == old(out)@ + encode_name(name@),
{
    let ghost before = out@;
    let mut i: usize = 0;
    assert(name@.skip(0) =~= name@);
    while i < name.labels.len()
        invariant
            labels_ok(name@),
            i <= name.labels.len(),
            out@ + encode_name(name@.skip(i as int)) == before + encode_name(name@),
        decreases name.labels.len() - i,
    {
        let label = &name.labels[i];
        let ghost tail = name@.skip(i as int);
        let ghost at_label = out@;
        proof {
            assert(tail[0] == label@);
            assert(name@[i as int] == label@);
            assert(tail.drop_first() =~= name@.skip(i + 1));
        }
        out.push(label.len() as u8);
        let mut j: usize = 0;
        while j < label.len()
            invariant
                j <= label.len(),
                label@.len() <= 63,
                out@ == at_label.push(label@.len() as u8) + label@.subrange(0, j as int),
            decreases label.len() - j,
        {
            out.push(label[j]);
            j += 1;
            assert(out@ =~= at_label.push(label@.len() as u8) + label@.subrange(0, j as int));
        }
        i += 1;
        proof {
            assert(label@.subrange(0, label@.len() as int) =~= label@);
            assert(out@ + encode_name(name@.skip(i as int)) =~= at_label + encode_name(tail));
        }
    }
    proof {
        assert(name@.skip(i as int).len() == 0);
        assert(out@.push(0u8) =~= out@ + encode_name(name@.skip(i as int)));
    }
    out.push(0);
}

/// Whether every label of `name` has between 1 and 63 octets.
pub fn has_valid_labels(name: &Name) -> (ok: bool)
    ensures
        ok == labels_ok(name@),
{
    let mut i: usize = 0;
    while i < name.labels.len()
        invariant
            i <= name.labels.len(),
            forall|k: int| 0 <= k < i ==> 1 <= #[trigger] name@[k].len() <= 63,
        decreases name.labels.len() - i,
    {
        let n: usize = name.labels[i].len();
        if n == 0 || n > 63 {
            assert(name@[i as int].len() == n);
            return false;
        }
        assert(name@[i as int].len() == n);
        i += 1;
    }
    true
}

/// The parts of a dotted text from `pos` on: `cur` is the part being read, `acc` the
/// parts that are complete. A dot ends a part.
pub open spec fn split_dots(text: Seq<u8>, pos: int, cur: Seq<u8>, acc: Seq<Seq<u8>>) -> Seq<
    Seq<u8>,
>
    decreases text.len() - pos,
{
    if pos < 0 || pos >= text.len() {
        acc.push(cur)
    } else if text[pos] == 46 {
        split_dots(text, pos + 1, Seq::empty(), acc.push(cur))
    } else {
        split_dots(text, pos + 1, cur.push(text[pos]), acc)
    }
}

/// The labels of a dotted name. One trailing dot is allowed and adds no label;
/// the empty text and a lone dot are the root, which has no label.
pub open spec fn dotted_labels(text: Seq<u8>) -> Seq<Seq<u8>> {
    let parts = split_dots(text, 0, Seq::empty(), Seq::empty());
    if text.len() == 1 && text[0] == 46 {
        Seq::empty()
    } else if parts.last().len() == 0 {
        parts.drop_last()
    } else {
        parts
    }
}

/// The name that a dotted text spells, if each of its labels has 1 to 63 octets.
pub open spec fn dotted_name(text: Seq<u8>) -> Result<Seq<Seq<u8>>, ArgumentError> {
    if labels_ok(dotted_labels(text)) {
        Ok(dotted_labels(text))
    } else {
        Err(ArgumentError::InvalidName)
    }
}

/// Parses a dotted name such as `example.com` or `example.com.` into its labels.
/// A name with an empty label or a label of more than 63 octets is an argument error.
pub fn parse_dotted(text: &[u8]) -> (r: Result<Name, ArgumentError>)
    ensures
        match dotted_name(text@) {
            Ok(labels) => r is Ok && r->Ok_0@ == labels,
            Err(e) => r == Err::<Name, _>(e),
        },
{
    if text.len() == 1 && text[0] == 46 {
        let root = Name { labels: Vec::new() };
        assert(root@ =~= Seq::<Seq<u8>>::empty());
        return Ok(root);
    }
    let mut labels: Vec<Vec<u8>> = Vec::new();
    let mut cur: Vec<u8> = Vec::new();
    let mut pos: usize = 0;
    assert(labels_view(labels@) =~= Seq::<Seq<u8>>::empty());
    while pos < text.len()
        invariant
            pos <= text@.len(),
            split_dots(text@, 0, Seq::empty(), Seq::empty()) == split_dots(
                text@,
                pos as int,
                cur@,
                labels_view(labels@),
            ),
        decreases text@.len() - pos,
    {
        let c: u8 = text[pos];
        if c == 46 {
            proof {
                assert(labels_view(labels@.push(cur)) =~= labels_view(labels@).push(cur@));
            }
            labels.push(cur);
            cur = Vec::new();
        } else {
            cur.push(c);
        }
        pos += 1;
    }
    let ghost parts = labels_view(labels@).push(cur@);
    assert(parts.last() == cur@);
    if cur.len() > 0 {
        proof {
            assert(labels_view(labels@.push(cur)) =~= parts);
        }
        labels.push(cur);
    } else {
        assert(parts.drop_last() =~= labels_view(labels@));
    }
    let name = Name { labels };
    if has_valid_labels(&name) {
        Ok(name)
    } else {
        Err(ArgumentError::InvalidName)
    }
}

/// Whether two byte strings are equal.
pub fn same_bytes(a: &Vec<u8>, b: &Vec<u8>) -> (eq: bool)
    ensures
        eq == (a@ == b@),
{
    if a.len() != b.len() {
        return false;
    }
    let mut i: usize = 0;
    while i < a.len()
        invariant
            a@.len() == b@.len(),
            i <= a.len(),
            forall|k: int| 0 <= k < i ==> a@[k] == b@[k],
        decreases a.len() - i,
    {
        if a[i] != b[i] {
            return false;
        }
        i += 1;
    }
    assert(a@ =~= b@);
    true
}

/// Whether two names have the same labels, octet for octet.
pub fn same_name(a: &Name, b: &Name) -> (eq: bool)
    ensures
        eq == (a@ == b@),
{
    if a.labels.len() != b.labels.len() {
        assert(a@.len() != b@.len());
        return false;
    }
    let mut i: usize = 0;
    while i < a.labels.len()
        invariant
            a.labels@.len() == b.labels@.len(),
            i <= a.labels.len(),
            forall|k: int| 0 <= k < i ==> a@[k] == b@[k],
        decreases a.labels.len() - i,
    {
        if !same_bytes(&a.labels[i], &b.labels[i]) {
            assert(a@[i as int] != b@[i as int]);
            return false;
        }
        assert(a@[i as int] == b@[i as int]);
        i += 1;
    }
    assert(a@ =~= b@);
    true
}

} // verus!
