//! The JSON text of the example records. The framing of each object is
//! written here; the numbers inside it are formatted and read by serde_json.
use vstd::prelude::*;
use vstd::string::StringExecFns;
use crate::model::{Point, Craft, Hardware, example_craft};
use crate::text::{same_text, suffix, lemma_suffix_split};
use vstd::seq_lib::lemma_concat_associative;

verus! {

#[verifier::external_type_specification]
#[verifier::external_body]
pub struct ExJsonError(serde_json::Error);

/// Why a record could not be read from JSON.
#[derive(Clone, Copy, Debug, PartialEq, Eq, Structural)]
pub enum JsonError {
    /// The text is not the JSON of a record.
    Decode,
}

/// The character of a decimal digit.
pub open spec fn digit_char(d: nat) -> char {
    if d == 0 { '0' }
    else if d == 1 { '1' }
    else if d == 2 { '2' }
    else if d == 3 { '3' }
    else if d == 4 { '4' }
    else if d == 5 { '5' }
    else if d == 6 { '6' }
    else if d == 7 { '7' }
    else if d == 8 { '8' }
    else { '9' }
}

/// The decimal digits of a natural number, without leading zeros.
pub open spec fn digits(n: nat) -> Seq<char>
    decreases n,
{
    if n < 10 {
        seq![digit_char(n)]
    } else {
        digits(n / 10) + seq![digit_char(n % 10)]
    }
}

/// The shortest decimal text of an integer, with a leading `-` when it is
/// negative: the way JSON writes an integer.
pub open spec fn decimal(n: int) -> Seq<char> {
    if n < 0 {
        seq!['-'] + digits((-n) as nat)
    } else {
        digits(n as nat)
    }
}

/// A key, then the decimal text of `n`, then `rest`.
pub open spec fn field_text(key: Seq<char>, n: int, rest: Seq<char>) -> Seq<char> {
    key + (decimal(n) + rest)
}

/// The JSON text of a point.
pub open spec fn point_json(p: Point) -> Seq<char> {
    "{\"x\":"@ + decimal(p.x as int) + ",\"y\":"@ + decimal(p.y as int) + ",\"z\":"@
        + decimal(p.z as int) + "}"@
}

/// The JSON text of a craft, its location as a nested object.
pub open spec fn craft_json(c: Craft) -> Seq<char> {
    "{\"fuel\":"@ + decimal(c.fuel as int) + ",\"vel_x\":"@ + decimal(c.vel_x as int)
        + ",\"vel_y\":"@ + decimal(c.vel_y as int) + ",\"vel_z\":"@ + decimal(c.vel_z as int)
        + ",\"location\":"@ + point_json(c.location) + "}"@
}

/// The end of a craft's JSON text: its location and the closing brace.
pub open spec fn craft_location_text(p: Point) -> Seq<char> {
    ",\"location\":"@ + (point_json(p) + ("}"@ + Seq::<char>::empty()))
}

/// The JSON text of a hardware report.
pub open spec fn hardware_json(h: Hardware) -> Seq<char> {
    "{\"cpu_count\":"@ + decimal(h.cpu_count as int) + ",\"core_count\":"@
        + decimal(h.core_count as int) + "}"@
}

/// Relies on serde_json::to_string on an `i32`: it writes the number in
/// decimal (through itoa), a `-` before a negative one, into a `Vec`, which
/// cannot fail.
#[verifier::external_body]
fn i32_to_json(n: i32) -> (r: Result<String, serde_json::Error>)
    ensures
        r is Ok && r->Ok_0@ == decimal(n as int),
{
    serde_json::to_string(&n)
}

/// Relies on serde_json::to_string on a `usize`: it writes the number in
/// decimal (through itoa, as a `u64`), into a `Vec`, which cannot fail.
#[verifier::external_body]
fn usize_to_json(n: usize) -> (r: Result<String, serde_json::Error>)
    ensures
        r is Ok && r->Ok_0@ == decimal(n as int),
{
    serde_json::to_string(&n)
}

/// Appends the JSON text of `n` to `out`.
fn push_i32(out: &mut String, n: i32)
    ensures
        final(out)@ == old(out)@ + decimal(n as int),
{
    match i32_to_json(n) {
        Ok(s) => out.append(s.as_str()),
        Err(_) => {},
    }
}

/// Appends the JSON text of `n` to `out`.
fn push_usize(out: &mut String, n: usize)
    ensures
        final(out)@ == old(out)@ + decimal(n as int),
{
    match usize_to_json(n) {
        Ok(s) => out.append(s.as_str()),
        Err(_) => {},
    }
}

/// Appends the JSON text of `p` to `out`.
fn push_point(out: &mut String, p: &Point)
    ensures
        final(out)@ == old(out)@ + point_json(*p),
{
    out.append("{\"x\":");
    push_i32(out, p.x);
    out.append(",\"y\":");
    push_i32(out, p.y);
    out.append(",\"z\":");
    push_i32(out, p.z);
    out.append("}");
}

/// The JSON text of a point.
pub fn point_to_json(p: &Point) -> (r: String)
    ensures
        r@ == point_json(*p),
{
    let mut out = String::new();
    push_point(&mut out, p);
    out
}

/// The JSON text of a craft.
pub fn craft_to_json(c: &Craft) -> (r: String)
    ensures
        r@ == craft_json(*c),
{
    let mut out = String::new();
    out.append("{\"fuel\":");
    push_i32(&mut out, c.fuel);
    out.append(",\"vel_x\":");
    push_i32(&mut out, c.vel_x);
    out.append(",\"vel_y\":");
    push_i32(&mut out, c.vel_y);
    out.append(",\"vel_z\":");
    push_i32(&mut out, c.vel_z);
    out.append(",\"location\":");
    push_point(&mut out, &c.location);
    out.append("}");
    out
}

/// The JSON text of a hardware report.
pub fn hardware_to_json(h: &Hardware) -> (r: String)
    ensures
        r@ == hardware_json(*h),
{
    let mut out = String::new();
    out.append("{\"cpu_count\":");
    push_usize(&mut out, h.cpu_count);
    out.append(",\"core_count\":");
    push_usize(&mut out, h.core_count);
    out.append("}");
    out
}

/// Whether `c` can stand in the decimal text of an integer.
pub open spec fn is_number_char(c: char) -> bool {
    c == '-' || ('0' <= c && c <= '9')
}

/// Whether `t` can follow a number without being read as part of it.
pub open spec fn ends_number(t: Seq<char>) -> bool {
    t.len() == 0 || !is_number_char(t[0])
}

proof fn lemma_digits_chars(n: nat)
    ensures
        digits(n).len() > 0,
        forall|i: int| 0 <= i < digits(n).len() ==> is_number_char(#[trigger] digits(n)[i]),
    decreases n,
{
    if n >= 10 {
        lemma_digits_chars(n / 10);
    }
}

/// The decimal text of an integer is not empty and holds only `-` and digits.
pub proof fn lemma_decimal_chars(n: int)
    ensures
        decimal(n).len() > 0,
        forall|i: int| 0 <= i < decimal(n).len() ==> is_number_char(#[trigger] decimal(n)[i]),
{
    if n < 0 {
        lemma_digits_chars((-n) as nat);
        assert forall|i: int| 0 <= i < decimal(n).len() implies is_number_char(
            #[trigger] decimal(n)[i],
        ) by {
            if i > 0 {
                assert(decimal(n)[i] == digits((-n) as nat)[i - 1]);
            }
        }
    } else {
        lemma_digits_chars(n as nat);
    }
}

/// Relies on serde_json::from_str on an `i32`: the decimal text of an `i32`
/// reads back as that number.
#[verifier::external_body]
fn i32_from_json(s: &str) -> (r: Result<i32, serde_json::Error>)
    ensures
        forall|n: i32| #![trigger decimal(n as int)] s@ == decimal(n as int) ==> (r is Ok && r->Ok_0 == n),
{
    serde_json::from_str(s)
}

fn number_char(c: char) -> (r: bool)
    ensures
        r == is_number_char(c),
{
    c == '-' || ('0' <= c && c <= '9')
}

/// The end of the run of number characters that starts at `pos`.
fn number_end(s: &str, pos: usize) -> (e: usize)
    requires
        pos <= s@.len(),
    ensures
        pos <= e <= s@.len(),
        forall|i: int| pos <= i < e ==> is_number_char(#[trigger] s@[i]),
        e == s@.len() || !is_number_char(s@[e as int]),
{
    let n = s.unicode_len();
    let mut e = pos;
    while e < n && number_char(s.get_char(e))
        invariant
            n == s@.len(),
            pos <= e <= n,
            forall|i: int| pos <= i < e ==> is_number_char(#[trigger] s@[i]),
        decreases n - e,
    {
        e = e + 1;
    }
    e
}

/// Matches the text `lit` at `pos`. Gives whether it is there, and the
/// position after it (`pos` where it is not).
fn expect(s: &str, pos: usize, lit: &str) -> (r: (bool, usize))
    requires
        pos <= s@.len(),
    ensures
        r.1 <= s@.len(),
        forall|rest: Seq<char>| #[trigger] (lit@ + rest) == suffix(s@, pos as int) ==> r.0 && r.1
            == pos + lit@.len() && suffix(s@, r.1 as int) == rest,
{
    let n = s.unicode_len();
    let m = lit.unicode_len();
    if m > n - pos {
        assert forall|rest: Seq<char>| #[trigger] (lit@ + rest) == suffix(s@, pos as int) implies false by {
            assert((lit@ + rest).len() == suffix(s@, pos as int).len());
        }
        return (false, pos);
    }
    let tok = s.substring_char(pos, pos + m);
    let found = same_text(tok, lit);
    assert forall|rest: Seq<char>| #[trigger] (lit@ + rest) == suffix(s@, pos as int) implies found
        && suffix(s@, pos + m) == rest by {
        assert(tok@ =~= lit@);
        lemma_suffix_split(s@, pos as int, lit@, rest);
    }
    if found {
        (true, pos + m)
    } else {
        (false, pos)
    }
}

/// Reads the integer that starts at `pos`. Gives whether it could be read,
/// the number, and the position after it.
fn read_i32(s: &str, pos: usize) -> (r: (bool, i32, usize))
    requires
        pos <= s@.len(),
    ensures
        r.2 <= s@.len(),
        forall|n: i32, rest: Seq<char>| #[trigger] (decimal(n as int) + rest) == suffix(s@, pos as int)
            && ends_number(rest) ==> r.0 && r.1 == n && r.2 == pos + decimal(n as int).len()
            && suffix(s@, r.2 as int) == rest,
{
    let e = number_end(s, pos);
    let tok = s.substring_char(pos, e);
    let r = match i32_from_json(tok) {
        Ok(v) => (true, v, e),
        Err(_) => (false, 0i32, e),
    };
    assert forall|n: i32, rest: Seq<char>| #[trigger] (decimal(n as int) + rest) == suffix(s@, pos as int)
        && ends_number(rest) implies r.0 && r.1 == n && r.2 == pos + decimal(n as int).len()
        && suffix(s@, r.2 as int) == rest by {
        let d = decimal(n as int);
        lemma_decimal_chars(n as int);
        let k = pos + d.len();
        assert(k <= s@.len()) by {
            assert((d + rest).len() == suffix(s@, pos as int).len());
        }
        if e < k {
            assert(s@[e as int] == (d + rest)[e - pos]);
            assert(is_number_char(d[e - pos]));
        }
        if e > k {
            assert(s@[k] == (d + rest)[d.len() as int]);
        }
        assert(tok@ =~= d);
        lemma_suffix_split(s@, pos as int, d, rest);
    }
    r
}

/// Reads the text `key` and then the integer that follows it, from `pos`.
/// Gives whether both were there, the number, and the position after it.
fn read_field(s: &str, pos: usize, key: &str) -> (r: (bool, i32, usize))
    requires
        pos <= s@.len(),
    ensures
        r.2 <= s@.len(),
        forall|n: i32, rest: Seq<char>| #[trigger] field_text(key@, n as int, rest) == suffix(
            s@,
            pos as int,
        ) && ends_number(rest) ==> r.0 && r.1 == n && suffix(s@, r.2 as int) == rest,
{
    let (a1, q1) = expect(s, pos, key);
    let (a2, n, q2) = read_i32(s, q1);
    (a1 && a2, n, q2)
}

/// Reads the point whose JSON text starts at `pos`. Gives whether it could
/// be read, the point, and the position after it.
fn read_point(s: &str, pos: usize) -> (r: (bool, Point, usize))
    requires
        pos <= s@.len(),
    ensures
        r.2 <= s@.len(),
        forall|p: Point, rest: Seq<char>| #[trigger] (point_json(p) + rest) == suffix(s@, pos as int)
            ==> r.0 && r.1 == p && suffix(s@, r.2 as int) == rest,
{
    let (a1, x, q1) = read_field(s, pos, "{\"x\":");
    let (a2, y, q2) = read_field(s, q1, ",\"y\":");
    let (a3, z, q3) = read_field(s, q2, ",\"z\":");
    let (a4, q4) = expect(s, q3, "}");
    let r = (a1 && a2 && a3 && a4, Point { x, y, z }, q4);
    assert forall|p: Point, rest: Seq<char>| #[trigger] (point_json(p) + rest) == suffix(s@, pos as int)
        implies r.0 && r.1 == p && suffix(s@, r.2 as int) == rest by {
        reveal_strlit(",\"y\":");
        reveal_strlit(",\"z\":");
        reveal_strlit("}");
        let t3 = "}"@ + rest;
        let t2 = field_text(",\"z\":"@, p.z as int, t3);
        let t1 = field_text(",\"y\":"@, p.y as int, t2);
        assert(point_json(p) + rest =~= field_text("{\"x\":"@, p.x as int, t1));
        assert(ends_number(t1));
        assert(ends_number(t2));
        assert(ends_number(t3));
    }
    r
}

/// A text that starts with `,` or `}` cannot continue a number.
proof fn lemma_ends_number(lit: Seq<char>, x: Seq<char>)
    requires
        lit.len() > 0,
        lit[0] == ',' || lit[0] == '}',
    ensures
        ends_number(lit + x),
{
    assert((lit + x)[0] == lit[0]);
}

/// The separators that follow the numbers of a craft start with `,` or `}`.
proof fn lemma_craft_separators(x: Seq<char>)
    ensures
        ends_number(",\"vel_x\":"@ + x),
        ends_number(",\"vel_y\":"@ + x),
        ends_number(",\"vel_z\":"@ + x),
        ends_number(",\"location\":"@ + x),
{
    reveal_strlit(",\"vel_x\":");
    reveal_strlit(",\"vel_y\":");
    reveal_strlit(",\"vel_z\":");
    reveal_strlit(",\"location\":");
    lemma_ends_number(",\"vel_x\":"@, x);
    lemma_ends_number(",\"vel_y\":"@, x);
    lemma_ends_number(",\"vel_z\":"@, x);
    lemma_ends_number(",\"location\":"@, x);
}

/// The JSON text of a craft, as its keys and numbers one after another.
proof fn lemma_craft_json_split(c: Craft)
    ensures
        craft_json(c) == field_text(
            "{\"fuel\":"@,
            c.fuel as int,
            field_text(
                ",\"vel_x\":"@,
                c.vel_x as int,
                field_text(
                    ",\"vel_y\":"@,
                    c.vel_y as int,
                    field_text(",\"vel_z\":"@, c.vel_z as int, craft_location_text(c.location)),
                ),
            ),
        ),
{
    let p0 = "{\"fuel\":"@;
    let p1 = decimal(c.fuel as int);
    let p2 = ",\"vel_x\":"@;
    let p3 = decimal(c.vel_x as int);
    let p4 = ",\"vel_y\":"@;
    let p5 = decimal(c.vel_y as int);
    let p6 = ",\"vel_z\":"@;
    let p7 = decimal(c.vel_z as int);
    let p8 = ",\"location\":"@;
    let p9 = point_json(c.location);
    let p10 = "}"@;
    let l0 = p0;
    let l1 = l0 + p1;
    let l2 = l1 + p2;
    let l3 = l2 + p3;
    let l4 = l3 + p4;
    let l5 = l4 + p5;
    let l6 = l5 + p6;
    let l7 = l6 + p7;
    let l8 = l7 + p8;
    let l9 = l8 + p9;
    let l10 = l9 + p10;
    let r10 = p10 + Seq::<char>::empty();
    let r9 = p9 + r10;
    let r8 = p8 + r9;
    let r7 = p7 + r8;
    let r6 = p6 + r7;
    let r5 = p5 + r6;
    let r4 = p4 + r5;
    let r3 = p3 + r4;
    let r2 = p2 + r3;
    let r1 = p1 + r2;
    assert(p10 =~= r10);
    assert(craft_json(c) == l9 + r10);
    lemma_concat_associative(l8, p9, r10);
    assert(craft_json(c) == l8 + r9);
    lemma_concat_associative(l7, p8, r9);
    assert(craft_json(c) == l7 + r8);
    lemma_concat_associative(l6, p7, r8);
    assert(craft_json(c) == l6 + r7);
    lemma_concat_associative(l5, p6, r7);
    assert(craft_json(c) == l5 + r6);
    lemma_concat_associative(l4, p5, r6);
    assert(craft_json(c) == l4 + r5);
    lemma_concat_associative(l3, p4, r5);
    assert(craft_json(c) == l3 + r4);
    lemma_concat_associative(l2, p3, r4);
    assert(craft_json(c) == l2 + r3);
    lemma_concat_associative(l1, p2, r3);
    assert(craft_json(c) == l1 + r2);
    lemma_concat_associative(l0, p1, r2);
    assert(craft_json(c) == l0 + r1);
}

/// Reads a craft back from the JSON text that `craft_to_json` writes: the
/// compact layout, keys in that order, no whitespace. The JSON text of a
/// craft always reads back as that craft. The numbers are read by
/// serde_json, so a field written `-0` reads as zero; other layouts are
/// refused.
pub fn craft_from_json(s: &str) -> (r: Result<Craft, JsonError>)
    ensures
        forall|c: Craft| #[trigger] craft_json(c) == s@ ==> r == Ok::<Craft, JsonError>(c),
        r is Err ==> r == Err::<Craft, JsonError>(JsonError::Decode),
{
    let (a1, fuel, q1) = read_field(s, 0, "{\"fuel\":");
    let (a2, vel_x, q2) = read_field(s, q1, ",\"vel_x\":");
    let (a3, vel_y, q3) = read_field(s, q2, ",\"vel_y\":");
    let (a4, vel_z, q4) = read_field(s, q3, ",\"vel_z\":");
    let (a5, q5) = expect(s, q4, ",\"location\":");
    let (a6, location, q6) = read_point(s, q5);
    let (a7, q7) = expect(s, q6, "}");
    let ok = a1 && a2 && a3 && a4 && a5 && a6 && a7 && q7 == s.unicode_len();
    assert forall|c: Craft| #[trigger] craft_json(c) == s@ implies ok && fuel == c.fuel && vel_x
        == c.vel_x && vel_y == c.vel_y && vel_z == c.vel_z && location == c.location by {
        let t5 = "}"@ + Seq::<char>::empty();
        let t4 = craft_location_text(c.location);
        let t3 = field_text(",\"vel_z\":"@, c.vel_z as int, t4);
        let t2 = field_text(",\"vel_y\":"@, c.vel_y as int, t3);
        let t1 = field_text(",\"vel_x\":"@, c.vel_x as int, t2);
        lemma_craft_json_split(c);
        assert(suffix(s@, 0) =~= s@);
        lemma_craft_separators(decimal(c.vel_x as int) + t2);
        lemma_craft_separators(decimal(c.vel_y as int) + t3);
        lemma_craft_separators(decimal(c.vel_z as int) + t4);
        lemma_craft_separators(point_json(c.location) + t5);
        assert(suffix(s@, q7 as int).len() == 0);
    }
    if ok {
        Ok(Craft { fuel, vel_x, vel_y, vel_z, location })
    } else {
        Err(JsonError::Decode)
    }
}

/// Writes a craft as JSON and reads the text back: the text is the craft's
/// JSON, and what is read back is the same craft.
pub fn craft_round_trip(c: &Craft) -> (r: Result<(String, Craft), JsonError>)
    ensures
        r is Ok,
        r matches Ok((t, d)) ==> t@ == craft_json(*c) && d == *c,
{
    let text = craft_to_json(c);
    match craft_from_json(text.as_str()) {
        Ok(d) => Ok((text, d)),
        Err(e) => Err(e),
    }
}

/// The JSON text of the example craft, written out.
pub open spec fn example_craft_text() -> Seq<char> {
    "{\"fuel\":12,\"vel_x\":1,\"vel_y\":2,\"vel_z\":2,\"location\":{\"x\":10,\"y\":22,\"z\":9}}"@
}

/// The JSON text of the example craft is the text written out above.
pub proof fn lemma_example_craft_text()
    ensures
        craft_json(example_craft()) == example_craft_text(),
{
    reveal_with_fuel(digits, 2);
    reveal_strlit("{\"fuel\":");
    reveal_strlit(",\"vel_x\":");
    reveal_strlit(",\"vel_y\":");
    reveal_strlit(",\"vel_z\":");
    reveal_strlit(",\"location\":");
    reveal_strlit("{\"x\":");
    reveal_strlit(",\"y\":");
    reveal_strlit(",\"z\":");
    reveal_strlit("}");
    reveal_strlit("{\"fuel\":12,\"vel_x\":1,\"vel_y\":2,\"vel_z\":2,\"location\":{\"x\":10,\"y\":22,\"z\":9}}");
    assert(decimal(12) =~= seq!['1', '2']);
    assert(decimal(10) =~= seq!['1', '0']);
    assert(decimal(22) =~= seq!['2', '2']);
    assert(decimal(1) =~= seq!['1']);
    assert(decimal(2) =~= seq!['2']);
    assert(decimal(9) =~= seq!['9']);
    assert(craft_json(example_craft()) =~= example_craft_text());
}

} // verus!
