//! The fingerprint of a source store, and hashes as texts.

use crate::migrate::hermes::sql::{sql_views, SqlValue, SqlView};
use crate::text::texts;
use vstd::bytes::{lemma_auto_spec_u64_to_from_le_bytes, spec_u64_from_le_bytes, spec_u64_to_le_bytes, u64_to_le_bytes};
use vstd::prelude::*;
use vstd::utf8::{encode_utf8, encode_utf8_decode_utf8};

verus! {

/// The SHA-256 digest of bytes.
pub uninterp spec fn sha256(bytes: Seq<u8>) -> Seq<u8>;

/// `sha2::Sha256::digest`: the digest of the bytes, 32 bytes long. What it is
/// for given bytes is left to the name.
#[verifier::external_body]
fn sha256_digest(bytes: &Vec<u8>) -> (r: Vec<u8>)
    ensures
        r@ == sha256(bytes@),
        r@.len() == 32,
{
    <sha2::Sha256 as sha2::Digest>::digest(bytes).to_vec()
}

/// A hexadecimal digit, in lower case.
pub open spec fn hex_digit(d: int) -> char {
    if d < 10 {
        ('0' as int + d) as char
    } else {
        ('a' as int + (d - 10)) as char
    }
}

/// Bytes in hexadecimal, two digits each.
pub open spec fn hex_text(bytes: Seq<u8>) -> Seq<char> {
    Seq::new(
        2 * bytes.len(),
        |i: int|
            if i % 2 == 0 {
                hex_digit(bytes[i / 2] as int / 16)
            } else {
                hex_digit(bytes[i / 2] as int % 16)
            },
    )
}

/// `hex::encode`: each byte as two digits in lower case, the higher one first.
#[verifier::external_body]
fn hex_encode(bytes: &Vec<u8>) -> (r: String)
    ensures
        r@ == hex_text(bytes@),
{
    hex::encode(bytes)
}

/// The hash of bytes as a text.
pub open spec fn hash_text(bytes: Seq<u8>) -> Seq<char> {
    hex_text(sha256(bytes))
}

/// The hash of the bytes as a text.
pub fn content_hash(bytes: &Vec<u8>) -> (r: String)
    ensures
        r@ == hash_text(bytes@),
        r@.len() == 64,
{
    hex_encode(&sha256_digest(bytes))
}

/// Whether a character is a hexadecimal digit.
pub open spec fn is_hex_digit(c: char) -> bool {
    ('0' <= c && c <= '9') || ('a' <= c && c <= 'f') || ('A' <= c && c <= 'F')
}

/// Bytes in hexadecimal are hexadecimal digits.
pub proof fn hex_text_has_hex_digits(bytes: Seq<u8>)
    ensures
        forall|i: int| 0 <= i < hex_text(bytes).len() ==> is_hex_digit(#[trigger] hex_text(bytes)[i]),
{
    assert forall|i: int| 0 <= i < hex_text(bytes).len() implies is_hex_digit(
        #[trigger] hex_text(bytes)[i],
    ) by {
        let b = bytes[i / 2] as int;
        assert(0 <= b / 16 < 16);
        assert(0 <= b % 16 < 16);
    }
}

/// A value as it enters the fingerprint: a letter for its type, then its bytes,
/// behind their number where that varies.
pub open spec fn value_bytes(v: SqlView) -> Seq<u8> {
    match v {
        SqlView::Null => seq![0x6eu8],
        SqlView::Integer(n) => seq![0x69u8] + spec_u64_to_le_bytes(n as u64),
        SqlView::Real(bits) => seq![0x72u8] + spec_u64_to_le_bytes(bits),
        SqlView::Text(s) => seq![0x74u8] + spec_u64_to_le_bytes(encode_utf8(s).len() as u64)
            + encode_utf8(s),
        SqlView::Blob(b) => seq![0x62u8] + spec_u64_to_le_bytes(b.len() as u64) + b,
    }
}

/// Values one after the other.
pub open spec fn values_bytes(values: Seq<SqlView>) -> Seq<u8>
    decreases values.len(),
{
    if values.len() == 0 {
        seq![]
    } else {
        values_bytes(values.drop_last()) + value_bytes(values.last())
    }
}

/// The names of columns as they enter the fingerprint.
pub open spec fn columns_bytes(columns: Seq<Seq<char>>) -> Seq<u8>
    decreases columns.len(),
{
    if columns.len() == 0 {
        seq![]
    } else {
        columns_bytes(columns.drop_last()) + encode_utf8("\0column\0"@) + encode_utf8(
            columns.last(),
        )
    }
}

/// A table's name and columns as they enter the fingerprint; a table without
/// columns is not there and leaves no trace.
pub open spec fn table_bytes(table: Seq<char>, columns: Seq<Seq<char>>) -> Seq<u8> {
    if columns.len() == 0 {
        seq![]
    } else {
        encode_utf8("\0table\0"@) + encode_utf8(table) + columns_bytes(columns)
    }
}

/// A row as it enters the fingerprint.
pub open spec fn row_bytes(values: Seq<SqlView>) -> Seq<u8> {
    encode_utf8("\0row\0"@) + values_bytes(values)
}

/// What the fingerprint of a store begins with: its format and the store's
/// path.
pub open spec fn header_bytes(path: Seq<char>) -> Seq<u8> {
    encode_utf8("tracedecay-hermes-legacy-session-store-v1\0"@) + encode_utf8(path)
}

fn push_bytes(out: &mut Vec<u8>, bytes: &[u8])
    ensures
        final(out)@ == old(out)@ + bytes@,
{
    let mut i: usize = 0;
    let ghost start = out@;
    while i < bytes.len()
        invariant
            i <= bytes@.len(),
            out@ == start + bytes@.take(i as int),
        decreases bytes@.len() - i,
    {
        out.push(bytes[i]);
        assert(bytes@.take(i as int + 1) == bytes@.take(i as int).push(bytes@[i as int]));
        i += 1;
    }
    assert(bytes@.take(bytes@.len() as int) == bytes@);
}

fn push_value(out: &mut Vec<u8>, v: &SqlValue)
    ensures
        final(out)@ == old(out)@ + value_bytes(v@),
{
    let ghost start = out@;
    match v {
        SqlValue::Null => {
            out.push(0x6e);
            assert(out@ == start + value_bytes(v@));
        },
        SqlValue::Integer(n) => {
            out.push(0x69);
            let bits: u64 = *n as u64;
            push_bytes(out, u64_to_le_bytes(bits).as_slice());
            assert(out@ == start + value_bytes(v@));
        },
        SqlValue::Real(bits) => {
            out.push(0x72);
            push_bytes(out, u64_to_le_bytes(*bits).as_slice());
            assert(out@ == start + value_bytes(v@));
        },
        SqlValue::Text(s) => {
            out.push(0x74);
            let bytes = s.as_str().as_bytes();
            push_bytes(out, u64_to_le_bytes(bytes.len() as u64).as_slice());
            push_bytes(out, bytes);
            assert(out@ == start + value_bytes(v@));
        },
        SqlValue::Blob(b) => {
            out.push(0x62);
            push_bytes(out, u64_to_le_bytes(b.len() as u64).as_slice());
            push_bytes(out, b.as_slice());
            assert(out@ == start + value_bytes(v@));
        },
    }
}

/// A fingerprint under way: the bytes that enter it.
pub struct Fingerprint {
    bytes: Vec<u8>,
}

impl View for Fingerprint {
    type V = Seq<u8>;

    closed spec fn view(&self) -> Seq<u8> {
        self.bytes@
    }
}

impl Fingerprint {
    /// Begins the fingerprint of the store at the path.
    pub fn new(path: &str) -> (r: Fingerprint)
        ensures
            r@ == header_bytes(path@),
    {
        let mut bytes: Vec<u8> = Vec::new();
        push_bytes(&mut bytes, "tracedecay-hermes-legacy-session-store-v1\0".as_bytes());
        push_bytes(&mut bytes, path.as_bytes());
        assert(bytes@ == header_bytes(path@));
        Fingerprint { bytes }
    }

    /// Adds the name and the columns of a table.
    pub fn table(&mut self, table: &str, columns: &Vec<String>)
        ensures
            final(self)@ == old(self)@ + table_bytes(table@, texts(columns@)),
    {
        if columns.len() == 0 {
            assert(self@ == old(self)@ + table_bytes(table@, texts(columns@)));
            return ;
        }
        let ghost start = self.bytes@;
        let ghost all = texts(columns@);
        let ghost head = start + encode_utf8("\0table\0"@) + encode_utf8(table@);
        push_bytes(&mut self.bytes, "\0table\0".as_bytes());
        push_bytes(&mut self.bytes, table.as_bytes());
        let mut i: usize = 0;
        assert(all.take(0) == Seq::<Seq<char>>::empty());
        assert(self.bytes@ == head + columns_bytes(all.take(0)));
        while i < columns.len()
            invariant
                i <= columns@.len(),
                all == texts(columns@),
                self.bytes@ == head + columns_bytes(all.take(i as int)),
            decreases columns@.len() - i,
        {
            proof {
                assert(all.take(i as int + 1).drop_last() == all.take(i as int));
                assert(all.take(i as int + 1).last() == columns@[i as int]@);
            }
            push_bytes(&mut self.bytes, "\0column\0".as_bytes());
            push_bytes(&mut self.bytes, columns[i].as_str().as_bytes());
            assert(self.bytes@ == head + columns_bytes(all.take(i as int + 1)));
            i += 1;
        }
        assert(all.take(all.len() as int) == all);
        assert(self.bytes@ == start + table_bytes(table@, all));
    }

    /// Adds a row.
    pub fn row(&mut self, values: &Vec<SqlValue>)
        ensures
            final(self)@ == old(self)@ + row_bytes(sql_views(values@)),
    {
        let ghost start = self.bytes@;
        let ghost all = sql_views(values@);
        let ghost head = start + encode_utf8("\0row\0"@);
        push_bytes(&mut self.bytes, "\0row\0".as_bytes());
        let mut i: usize = 0;
        assert(all.take(0) == Seq::<SqlView>::empty());
        assert(self.bytes@ == head + values_bytes(all.take(0)));
        while i < values.len()
            invariant
                i <= values@.len(),
                all == sql_views(values@),
                self.bytes@ == head + values_bytes(all.take(i as int)),
            decreases values@.len() - i,
        {
            proof {
                assert(all.take(i as int + 1).drop_last() == all.take(i as int));
                assert(all.take(i as int + 1).last() == values@[i as int]@);
            }
            push_value(&mut self.bytes, &values[i]);
            assert(self.bytes@ == head + values_bytes(all.take(i as int + 1)));
            i += 1;
        }
        assert(all.take(all.len() as int) == all);
        assert(self.bytes@ == start + row_bytes(all));
    }

    /// The fingerprint as a text of 64 hexadecimal digits.
    pub fn finish(&self) -> (r: String)
        ensures
            r@ == hash_text(self@),
            r@.len() == 64,
            forall|i: int| 0 <= i < r@.len() ==> is_hex_digit(#[trigger] r@[i]),
    {
        proof {
            hex_text_has_hex_digits(sha256(self@));
        }
        content_hash(&self.bytes)
    }
}

/// Whether a value's bytes can be counted in 64 bits.
pub open spec fn countable(v: SqlView) -> bool {
    match v {
        SqlView::Text(s) => encode_utf8(s).len() <= u64::MAX,
        SqlView::Blob(b) => b.len() <= u64::MAX,
        _ => true,
    }
}

/// A value can be told from its bytes, whatever follows them.
pub proof fn values_are_told_apart(a: SqlView, b: SqlView, x: Seq<u8>, y: Seq<u8>)
    requires
        countable(a),
        countable(b),
        value_bytes(a) + x == value_bytes(b) + y,
    ensures
        a == b,
        x == y,
{
    lemma_auto_spec_u64_to_from_le_bytes();
    let left = value_bytes(a) + x;
    let right = value_bytes(b) + y;
    assert(left[0] == value_bytes(a)[0]);
    assert(right[0] == value_bytes(b)[0]);
    match (a, b) {
        (SqlView::Null, SqlView::Null) => {
            assert(left.skip(1) == x);
            assert(right.skip(1) == y);
        },
        (SqlView::Integer(m), SqlView::Integer(n)) => {
            assert(left.subrange(1, 9) == spec_u64_to_le_bytes(m as u64));
            assert(right.subrange(1, 9) == spec_u64_to_le_bytes(n as u64));
            assert(m as u64 == n as u64);
            assert(m as u64 == n as u64 ==> m == n) by (bit_vector);
            assert(left.skip(9) == x);
            assert(right.skip(9) == y);
        },
        (SqlView::Real(m), SqlView::Real(n)) => {
            assert(left.subrange(1, 9) == spec_u64_to_le_bytes(m));
            assert(right.subrange(1, 9) == spec_u64_to_le_bytes(n));
            assert(left.skip(9) == x);
            assert(right.skip(9) == y);
        },
        (SqlView::Text(s), SqlView::Text(t)) => {
            let m = encode_utf8(s).len();
            let n = encode_utf8(t).len();
            assert(left.subrange(1, 9) == spec_u64_to_le_bytes(m as u64));
            assert(right.subrange(1, 9) == spec_u64_to_le_bytes(n as u64));
            assert(m == n);
            assert(left.subrange(9, 9 + m as int) == encode_utf8(s));
            assert(right.subrange(9, 9 + n as int) == encode_utf8(t));
            encode_utf8_decode_utf8(s);
            encode_utf8_decode_utf8(t);
            assert(left.skip(9 + m as int) == x);
            assert(right.skip(9 + n as int) == y);
        },
        (SqlView::Blob(s), SqlView::Blob(t)) => {
            let m = s.len();
            let n = t.len();
            assert(left.subrange(1, 9) == spec_u64_to_le_bytes(m as u64));
            assert(right.subrange(1, 9) == spec_u64_to_le_bytes(n as u64));
            assert(m == n);
            assert(left.subrange(9, 9 + m as int) == s);
            assert(right.subrange(9, 9 + n as int) == t);
            assert(left.skip(9 + m as int) == x);
            assert(right.skip(9 + n as int) == y);
        },
        _ => {},
    }
}

proof fn values_bytes_front(values: Seq<SqlView>)
    requires
        values.len() > 0,
    ensures
        values_bytes(values) == value_bytes(values[0]) + values_bytes(values.skip(1)),
    decreases values.len(),
{
    if values.len() == 1 {
        assert(values.drop_last() == Seq::<SqlView>::empty());
        assert(values.skip(1) == Seq::<SqlView>::empty());
        reveal_with_fuel(values_bytes, 2);
        assert(values_bytes(values) =~= value_bytes(values[0]) + values_bytes(values.skip(1)));
    } else {
        let front = values.drop_last();
        values_bytes_front(front);
        assert(front.skip(1) == values.skip(1).drop_last());
        assert(values.skip(1).last() == values.last());
        assert(values_bytes(values) =~= value_bytes(values[0]) + values_bytes(values.skip(1)));
    }
}

/// Two rows of one table that enter the fingerprint with the same bytes are the
/// same row.
pub proof fn rows_are_told_apart(a: Seq<SqlView>, b: Seq<SqlView>)
    requires
        a.len() == b.len(),
        forall|i: int| 0 <= i < a.len() ==> countable(#[trigger] a[i]),
        forall|i: int| 0 <= i < b.len() ==> countable(#[trigger] b[i]),
        values_bytes(a) == values_bytes(b),
    ensures
        a == b,
    decreases a.len(),
{
    if a.len() > 0 {
        values_bytes_front(a);
        values_bytes_front(b);
        values_are_told_apart(
            a[0],
            b[0],
            values_bytes(a.skip(1)),
            values_bytes(b.skip(1)),
        );
        rows_are_told_apart(a.skip(1), b.skip(1));
        assert(a == seq![a[0]] + a.skip(1));
        assert(b == seq![b[0]] + b.skip(1));
    } else {
        assert(a == b);
    }
}

/// The number that a hexadecimal digit in lower case stands for.
pub open spec fn digit_number(c: char) -> int {
    if '0' <= c && c <= '9' {
        c as int - '0' as int
    } else if 'a' <= c && c <= 'f' {
        c as int - 'a' as int + 10
    } else {
        -1
    }
}

/// Two digits are written for each byte, the higher first and in lower case, and
/// give the byte back.
pub proof fn digits_read_back(bytes: Seq<u8>, i: int)
    requires
        0 <= i < bytes.len(),
    ensures
        hex_text(bytes).len() == 2 * bytes.len(),
        0 <= digit_number(hex_text(bytes)[2 * i]) < 16,
        0 <= digit_number(hex_text(bytes)[2 * i + 1]) < 16,
        bytes[i] == 16 * digit_number(hex_text(bytes)[2 * i]) + digit_number(
            hex_text(bytes)[2 * i + 1],
        ),
{
    assert((2 * i) / 2 == i && (2 * i + 1) / 2 == i && (2 * i) % 2 == 0 && (2 * i + 1) % 2 == 1);
}

/// A value begins with the letter of its kind: `n` for null, `i` for integers,
/// `r` for reals, `t` for texts and `b` for bytes. Numbers follow in eight
/// bytes, the least first; texts and bytes follow their length.
pub proof fn values_begin_with_their_kind(v: SqlView)
    ensures
        v is Null ==> value_bytes(v) == seq!['n' as u8],
        v matches SqlView::Integer(n) ==> value_bytes(v).len() == 9 && value_bytes(v)[0]
            == 'i' as u8 && spec_u64_from_le_bytes(value_bytes(v).skip(1)) == n as u64,
        v matches SqlView::Real(bits) ==> value_bytes(v).len() == 9 && value_bytes(v)[0]
            == 'r' as u8 && spec_u64_from_le_bytes(value_bytes(v).skip(1)) == bits,
        v matches SqlView::Text(s) ==> value_bytes(v)[0] == 't' as u8 && spec_u64_from_le_bytes(
            value_bytes(v).subrange(1, 9),
        ) == encode_utf8(s).len() as u64 && value_bytes(v).skip(9) == encode_utf8(s),
        v matches SqlView::Blob(b) ==> value_bytes(v)[0] == 'b' as u8 && spec_u64_from_le_bytes(
            value_bytes(v).subrange(1, 9),
        ) == b.len() as u64 && value_bytes(v).skip(9) == b,
{
    lemma_auto_spec_u64_to_from_le_bytes();
    match v {
        SqlView::Null => {},
        SqlView::Integer(n) => {
            assert(value_bytes(v).skip(1) == spec_u64_to_le_bytes(n as u64));
        },
        SqlView::Real(bits) => {
            assert(value_bytes(v).skip(1) == spec_u64_to_le_bytes(bits));
        },
        SqlView::Text(s) => {
            assert(value_bytes(v).subrange(1, 9) == spec_u64_to_le_bytes(
                encode_utf8(s).len() as u64,
            ));
            assert(value_bytes(v).skip(9) == encode_utf8(s));
        },
        SqlView::Blob(b) => {
            assert(value_bytes(v).subrange(1, 9) == spec_u64_to_le_bytes(b.len() as u64));
            assert(value_bytes(v).skip(9) == b);
        },
    }
}

/// Values are hashed one after the other, in their order.
pub proof fn values_are_hashed_in_order(first: Seq<SqlView>, second: Seq<SqlView>, v: SqlView)
    ensures
        values_bytes(first + second) == values_bytes(first) + values_bytes(second),
        values_bytes(seq![v]) == value_bytes(v),
    decreases second.len(),
{
    reveal_with_fuel(values_bytes, 2);
    assert(seq![v].drop_last() == Seq::<SqlView>::empty());
    assert(Seq::<u8>::empty() + value_bytes(v) == value_bytes(v));
    if second.len() == 0 {
        assert(first + second == first);
        assert(values_bytes(first) + Seq::<u8>::empty() == values_bytes(first));
    } else {
        values_are_hashed_in_order(first, second.drop_last(), v);
        assert((first + second).drop_last() == first + second.drop_last());
        let a = values_bytes(first);
        let b = values_bytes(second.drop_last());
        assert(a + b + value_bytes(second.last()) == a + (b + value_bytes(second.last())));
    }
}

/// A store's hash begins with the mark of this kind of hash, and stores at
/// different paths are hashed differently from the first table on.
pub proof fn stores_are_told_apart(a: Seq<char>, b: Seq<char>)
    requires
        header_bytes(a) == header_bytes(b),
    ensures
        a == b,
        encode_utf8("tracedecay-hermes-legacy-session-store-v1\0"@).is_prefix_of(header_bytes(a)),
        header_bytes(a).len() == encode_utf8("tracedecay-hermes-legacy-session-store-v1\0"@).len()
            + encode_utf8(a).len(),
{
    let mark = encode_utf8("tracedecay-hermes-legacy-session-store-v1\0"@);
    assert(header_bytes(a).skip(mark.len() as int) == encode_utf8(a));
    assert(header_bytes(a).subrange(0, mark.len() as int) == mark);
    assert(header_bytes(b).skip(mark.len() as int) == encode_utf8(b));
    encode_utf8_decode_utf8(a);
    encode_utf8_decode_utf8(b);
}

/// A table is hashed with its name and each of its columns, in order, each
/// behind its mark; a table without columns adds nothing.
pub proof fn tables_are_hashed_with_their_columns(
    table: Seq<char>,
    columns: Seq<Seq<char>>,
    column: Seq<char>,
)
    ensures
        table_bytes(table, seq![]).len() == 0,
        table_bytes(table, seq![column]) == encode_utf8("\0table\0"@) + encode_utf8(table)
            + encode_utf8("\0column\0"@) + encode_utf8(column),
        columns.len() > 0 ==> table_bytes(table, columns.push(column)) == table_bytes(table, columns)
            + encode_utf8("\0column\0"@) + encode_utf8(column),
{
    reveal_with_fuel(columns_bytes, 2);
    assert(seq![column].drop_last() == Seq::<Seq<char>>::empty());
    assert(table_bytes(table, seq![column]) == encode_utf8("\0table\0"@) + encode_utf8(table)
        + encode_utf8("\0column\0"@) + encode_utf8(column));
    assert(columns.push(column).drop_last() == columns);
    if columns.len() > 0 {
        assert(table_bytes(table, columns.push(column)) == table_bytes(table, columns)
            + encode_utf8("\0column\0"@) + encode_utf8(column));
    }
}

} // verus!
