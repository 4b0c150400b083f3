use vstd::prelude::*;
use vstd::utf8::*;

use crate::bytes::{copy_bytes, le_bytes, le_value, lemma_le_round_trip, lemma_pow256_values, push_bytes, push_le, push_zeros, read_le};
use crate::text::{
    field_bytes, fits, lemma_field_bytes_fit, lemma_padded_round_trip, lossy_string, lossy_text,
    padded, push_char, read_field, write_field, zeros,
};
use crate::DecodeError;
use vstd::string::StringExecFns;

verus! {

/// Width of the name field of a companion record.
pub const ID_NAME_WIDTH: usize = 24;

/// Size of a companion record, without its marker.
pub const ID_RECORD_SIZE: usize = 28;

/// Size of a companion record followed by its marker.
pub const ID_ENTRY_SIZE: usize = 32;

/// Width of the name field of a companion-symbol record.
pub const SYMBOL_NAME_WIDTH: usize = 52;

/// Size of a companion-symbol record.
pub const SYMBOL_ENTRY_SIZE: usize = 60;

/// Size of the section that holds the companion-symbol records.
pub const SYMBOL_SECTION_SIZE: usize = 960;

/// Most companion-symbol records the section can hold.
pub const MAX_SYMBOL_ENTRIES: usize = 16;

/// Largest symbol id a companion can wear.
pub const MAX_COMPANION_SYMBOL: u32 = 21;

/// The four bytes that follow each companion record.
pub open spec fn marker() -> Seq<u8> {
    seq![0x01u8, 0x00u8, 0x10u8, 0x01u8]
}

/// A companion met on the journey, with the id of their account. The name is kept as the bytes
/// the file holds; `name` is their text.
#[derive(Debug, Clone)]
pub struct CompanionWithId {
    pub name: String,
    name_bytes: Vec<u8>,
    pub steam_id: u32,
}

impl View for CompanionWithId {
    type V = (Seq<u8>, u32);

    closed spec fn view(&self) -> (Seq<u8>, u32) {
        (self.name_bytes@, self.steam_id)
    }
}

impl CompanionWithId {
    /// The name as text.
    pub closed spec fn text(&self) -> Seq<char> {
        self.name@
    }
}

/// The decimal digits of `n`, most significant first.
pub open spec fn decimal(n: nat) -> Seq<char>
    decreases n,
{
    if n < 10 {
        seq![((48 + n) as u8) as char]
    } else {
        decimal(n / 10).push(((48 + n % 10) as u8) as char)
    }
}

/// Whether a byte is left as it is by URL encoding: ASCII letters and digits and `-._~`.
pub open spec fn url_safe(b: u8) -> bool {
    (48 <= b <= 57) || (65 <= b <= 90) || (97 <= b <= 122) || b == 45 || b == 46 || b == 95 || b == 126
}

/// Upper-case hexadecimal digit of a value below 16.
pub open spec fn hex_digit(d: u8) -> char {
    if d < 10 {
        ((48 + d) as u8) as char
    } else {
        ((55 + d) as u8) as char
    }
}

/// URL encoding of bytes: each safe byte as itself, every other byte as `%` and two upper-case
/// hexadecimal digits.
pub open spec fn url_encoded(b: Seq<u8>) -> Seq<char>
    decreases b.len(),
{
    if b.len() == 0 {
        Seq::empty()
    } else {
        (if url_safe(b[0]) {
            seq![b[0] as char]
        } else {
            seq!['%', hex_digit(b[0] / 16), hex_digit(b[0] % 16)]
        }) + url_encoded(b.subrange(1, b.len() as int))
    }
}

/// Relies on `urlencoding::encode`: it percent-encodes every byte of the UTF-8 form of its
/// argument except ASCII letters, digits and `-._~`, with upper-case hexadecimal digits.
#[verifier::external_body]
fn url_encode(s: &str) -> (r: String)
    ensures
        r@ == url_encoded(encode_utf8(s@)),
{
    urlencoding::encode(s).into_owned()
}

fn push_decimal(s: &mut String, n: u32)
    ensures
        final(s)@ == old(s)@ + decimal(n as nat),
    decreases n,
{
    if n >= 10 {
        push_decimal(s, n / 10);
    }
    let c = (48u8 + (n % 10) as u8) as char;
    push_char(s, c);
    proof {
        assert(final(s)@ =~= old(s)@ + decimal(n as nat)) by {
            if n >= 10 {
                assert(decimal(n as nat) == decimal(n as nat / 10).push(((48 + n % 10) as u8) as char));
            }
        }
    }
}

/// The account id in its third-version text form, `[U:1:<id>]`.
pub open spec fn steam_id_text(id: u32) -> Seq<char> {
    "[U:1:"@ + decimal(id as nat) + "]"@
}

/// Whether a companion can be stored: the name fits its field and the id is not zero.
#[verifier::opaque]
pub open spec fn valid_companion(c: (Seq<u8>, u32)) -> bool {
    fits(c.0, ID_NAME_WIDTH as nat) && c.1 != 0
}

impl CompanionWithId {
    /// The account id in its third-version text form, `[U:1:<id>]`.
    pub fn steam_id_v3(&self) -> (r: String)
        ensures
            r@ == steam_id_text(self@.1),
    {
        let mut s = String::from_str("[U:1:");
        push_decimal(&mut s, self.steam_id);
        s.append("]");
        s
    }

    /// Address of the companion's community profile.
    pub fn steam_url(&self) -> (r: String)
        ensures
            r@ == "https://steamcommunity.com/profiles/"@ + url_encoded(encode_utf8(steam_id_text(self@.1))),
    {
        let id = self.steam_id_v3();
        let encoded = url_encode(id.as_str());
        let mut url = String::from_str("https://steamcommunity.com/profiles/");
        url.append(encoded.as_str());
        url
    }
}

/// Reads one companion record of 28 bytes.
pub open spec fn parse_companion(rec: Seq<u8>) -> Result<(Seq<u8>, u32), DecodeError> {
    let id = le_value(rec.subrange(ID_NAME_WIDTH as int, ID_RECORD_SIZE as int));
    if id == 0 {
        Err(DecodeError::ZeroSteamId)
    } else {
        Ok((field_bytes(rec.subrange(0, ID_NAME_WIDTH as int)), id as u32))
    }
}

/// The 28 bytes of a companion record.
pub open spec fn companion_bytes(c: (Seq<u8>, u32)) -> Seq<u8> {
    padded(c.0, ID_NAME_WIDTH as nat) + le_bytes(c.1 as nat, 4)
}

/// Reads the list of companions at the start of `t`: as long as the marker stands right after
/// the next record, that record is one more companion. Gives the companions and the number of
/// bytes they take.
pub open spec fn parse_companion_list(t: Seq<u8>) -> Result<(Seq<(Seq<u8>, u32)>, nat), DecodeError>
    decreases t.len(),
{
    if t.len() < ID_ENTRY_SIZE {
        Err(DecodeError::Truncated)
    } else if t.subrange(ID_RECORD_SIZE as int, ID_ENTRY_SIZE as int) != marker() {
        Ok((Seq::empty(), 0))
    } else {
        match parse_companion(t.subrange(0, ID_RECORD_SIZE as int)) {
            Err(e) => Err(e),
            Ok(c) => match parse_companion_list(t.subrange(ID_ENTRY_SIZE as int, t.len() as int)) {
                Err(e) => Err(e),
                Ok((rest, used)) => Ok((seq![c] + rest, (used + ID_ENTRY_SIZE) as nat)),
            },
        }
    }
}

/// The bytes of a list of companions: each record followed by the marker.
pub open spec fn companion_list_bytes(cs: Seq<(Seq<u8>, u32)>) -> Seq<u8>
    decreases cs.len(),
{
    if cs.len() == 0 {
        Seq::empty()
    } else {
        companion_bytes(cs[0]) + marker() + companion_list_bytes(cs.drop_first())
    }
}

spec fn prepend_companions(
    acc: Seq<(Seq<u8>, u32)>,
    n: nat,
    r: Result<(Seq<(Seq<u8>, u32)>, nat), DecodeError>,
) -> Result<(Seq<(Seq<u8>, u32)>, nat), DecodeError> {
    match r {
        Ok((rest, used)) => Ok((acc + rest, used + n)),
        Err(e) => Err(e),
    }
}

proof fn lemma_companion_round_trip(c: (Seq<u8>, u32))
    requires
        valid_companion(c),
    ensures
        companion_bytes(c).len() == ID_RECORD_SIZE,
        parse_companion(companion_bytes(c)) == Ok::<(Seq<u8>, u32), DecodeError>(c),
{
    reveal(valid_companion);
    lemma_padded_round_trip(c.0, ID_NAME_WIDTH as nat);
    lemma_pow256_values();
    lemma_le_round_trip(c.1 as nat, 4);
    let b = companion_bytes(c);
    assert(b.subrange(0, ID_NAME_WIDTH as int) =~= padded(c.0, ID_NAME_WIDTH as nat));
    assert(b.subrange(ID_NAME_WIDTH as int, ID_RECORD_SIZE as int) =~= le_bytes(c.1 as nat, 4));
}

proof fn lemma_companion_list_bytes_push(cs: Seq<(Seq<u8>, u32)>, c: (Seq<u8>, u32))
    ensures
        companion_list_bytes(cs.push(c)) == companion_list_bytes(cs) + companion_bytes(c) + marker(),
    decreases cs.len(),
{
    let e = Seq::<(Seq<u8>, u32)>::empty();
    assert(companion_list_bytes(e) == Seq::<u8>::empty());
    if cs.len() == 0 {
        assert(cs.push(c).drop_first() =~= e);
        assert(cs.push(c)[0] == c);
        assert(companion_list_bytes(cs.push(c)) == companion_bytes(c) + marker() + companion_list_bytes(e));
        assert(companion_list_bytes(cs.push(c)) =~= companion_list_bytes(cs) + companion_bytes(c) + marker());
    } else {
        assert(cs.push(c).drop_first() =~= cs.drop_first().push(c));
        assert(cs.push(c)[0] == cs[0]);
        lemma_companion_list_bytes_push(cs.drop_first(), c);
        assert(companion_list_bytes(cs.push(c)) == companion_bytes(cs[0]) + marker() + companion_list_bytes(cs.drop_first().push(c)));
        assert(companion_list_bytes(cs.push(c)) =~= companion_list_bytes(cs) + companion_bytes(c) + marker());
    }
}

proof fn lemma_companion_list_step(c: (Seq<u8>, u32), tb: Seq<u8>)
    requires
        valid_companion(c),
    ensures
        parse_companion_list(companion_bytes(c) + marker() + tb) == prepend_companions(
            seq![c],
            ID_ENTRY_SIZE as nat,
            parse_companion_list(tb),
        ),
{
    lemma_companion_round_trip(c);
    let t = companion_bytes(c) + marker() + tb;
    assert(t.subrange(0, ID_RECORD_SIZE as int) =~= companion_bytes(c));
    assert(t.subrange(ID_RECORD_SIZE as int, ID_ENTRY_SIZE as int) =~= marker());
    assert(t.subrange(ID_ENTRY_SIZE as int, t.len() as int) =~= tb);
}

/// A list of valid companions, followed by bytes that do not continue it, reads back whole.
pub proof fn lemma_companion_list_round_trip(cs: Seq<(Seq<u8>, u32)>, rest: Seq<u8>)
    requires
        forall|i: int| 0 <= i < cs.len() ==> valid_companion(#[trigger] cs[i]),
        rest.len() >= ID_ENTRY_SIZE,
        rest.subrange(ID_RECORD_SIZE as int, ID_ENTRY_SIZE as int) != marker(),
    ensures
        parse_companion_list(companion_list_bytes(cs) + rest) == Ok::<(Seq<(Seq<u8>, u32)>, nat), DecodeError>((cs, (ID_ENTRY_SIZE * cs.len()) as nat)),
    decreases cs.len(),
{
    if cs.len() == 0 {
        assert(companion_list_bytes(cs) + rest =~= rest);
        assert(cs =~= Seq::<(Seq<u8>, u32)>::empty());
    } else {
        let c = cs[0];
        let tail = cs.drop_first();
        lemma_tail_valid(cs);
        lemma_companion_list_round_trip(tail, rest);
        let tb = companion_list_bytes(tail) + rest;
        assert(parse_companion_list(companion_list_bytes(cs) + rest) == prepend_companions(
            seq![c],
            ID_ENTRY_SIZE as nat,
            parse_companion_list(tb),
        )) by {
            lemma_companion_list_bytes_split(cs, rest);
            lemma_companion_list_step(c, tb);
        }
        assert(seq![c] + tail =~= cs);
        assert(prepend_companions(seq![c], ID_ENTRY_SIZE as nat, parse_companion_list(tb)) == Ok::<(Seq<(Seq<u8>, u32)>, nat), DecodeError>((cs, (ID_ENTRY_SIZE * cs.len()) as nat)));
    }
}

proof fn lemma_tail_valid(cs: Seq<(Seq<u8>, u32)>)
    requires
        cs.len() > 0,
        forall|i: int| 0 <= i < cs.len() ==> valid_companion(#[trigger] cs[i]),
    ensures
        valid_companion(cs[0]),
        forall|i: int| 0 <= i < cs.drop_first().len() ==> valid_companion(#[trigger] cs.drop_first()[i]),
{
    assert forall|i: int| 0 <= i < cs.drop_first().len() implies valid_companion(#[trigger] cs.drop_first()[i]) by {
        assert(cs.drop_first()[i] == cs[i + 1]);
    }
}

proof fn lemma_companion_list_bytes_split(cs: Seq<(Seq<u8>, u32)>, rest: Seq<u8>)
    requires
        cs.len() > 0,
        valid_companion(cs[0]),
    ensures
        companion_list_bytes(cs) + rest == companion_bytes(cs[0]) + marker() + (companion_list_bytes(cs.drop_first()) + rest),
{
    lemma_companion_round_trip(cs[0]);
    let x = companion_bytes(cs[0]) + marker();
    let y = companion_list_bytes(cs.drop_first());
    assert(companion_list_bytes(cs) == x + y);
    assert((x + y) + rest =~= x + (y + rest));
}

/// What reading a list leaves behind does not continue it, and every companion read is valid.
pub proof fn lemma_companion_list_end(t: Seq<u8>)
    requires
        parse_companion_list(t) is Ok,
    ensures
        ({
            let (cs, used) = parse_companion_list(t)->Ok_0;
            &&& used == ID_ENTRY_SIZE * cs.len()
            &&& used + ID_ENTRY_SIZE <= t.len()
            &&& t.subrange(used as int, t.len() as int).subrange(ID_RECORD_SIZE as int, ID_ENTRY_SIZE as int) != marker()
            &&& forall|i: int| 0 <= i < cs.len() ==> valid_companion(#[trigger] cs[i])
        }),
    decreases t.len(),
{
    if t.subrange(ID_RECORD_SIZE as int, ID_ENTRY_SIZE as int) != marker() {
        assert(t.subrange(0, t.len() as int) =~= t);
    } else {
        let rec = t.subrange(0, ID_RECORD_SIZE as int);
        let c = parse_companion(rec)->Ok_0;
        let rest_t = t.subrange(ID_ENTRY_SIZE as int, t.len() as int);
        lemma_companion_list_end(rest_t);
        let (rest, used) = parse_companion_list(rest_t)->Ok_0;
        assert(t.subrange(ID_ENTRY_SIZE + used, t.len() as int) =~= rest_t.subrange(used as int, rest_t.len() as int));
        lemma_field_bytes_fit(rec.subrange(0, ID_NAME_WIDTH as int));
        lemma_le_value_bound_4(rec.subrange(ID_NAME_WIDTH as int, ID_RECORD_SIZE as int));
        assert(valid_companion(c)) by {
            reveal(valid_companion);
        }
        let cs = seq![c] + rest;
        assert forall|i: int| 0 <= i < cs.len() implies valid_companion(#[trigger] cs[i]) by {
            if i > 0 {
                assert(cs[i] == rest[i - 1]);
            }
        }
    }
}

/// The companions of the journey, in the order the game keeps them.
#[derive(Debug)]
pub struct Companions(Vec<CompanionWithId>);

impl View for Companions {
    type V = Seq<(Seq<u8>, u32)>;

    closed spec fn view(&self) -> Seq<(Seq<u8>, u32)> {
        self.0@.map_values(|c: CompanionWithId| c@)
    }
}

impl Companions {
    #[verifier::type_invariant]
    spec fn inv(self) -> bool {
        forall|i: int|
            0 <= i < self.0@.len() ==> valid_companion(#[trigger] self.0@[i]@) && self.0@[i].text()
                == lossy_text(self.0@[i]@.0)
    }

    /// Each companion's name is the text of its stored bytes.
    pub open spec fn names_are_text(&self) -> bool {
        forall|i: int|
            0 <= i < self.entries().len() ==> #[trigger] self.entries()[i].text() == lossy_text(
                self.entries()[i]@.0,
            )
    }

    /// The companions as a sequence of entries.
    pub closed spec fn entries(&self) -> Seq<CompanionWithId> {
        self.0@
    }

    /// The entries are the companions of the view, one for one.
    pub proof fn lemma_entries(&self)
        ensures
            self.entries().len() == self@.len(),
            forall|i: int| 0 <= i < self@.len() ==> #[trigger] self.entries()[i]@ == self@[i],
    {
    }

    /// The companions, in order.
    pub fn iter(&self) -> (r: std::slice::Iter<'_, CompanionWithId>)
        ensures
            vstd::std_specs::slice::into_iter_elts(r) == self.entries(),
            self.names_are_text(),
    {
        proof {
            use_type_invariant(self);
        }
        self.0.iter()
    }

    /// How many there are.
    pub fn count(&self) -> (r: usize)
        ensures
            r == self@.len(),
    {
        self.0.len()
    }

    /// The companions from position `from` up to position `to`.
    pub fn range(&self, from: usize, to: usize) -> (r: &[CompanionWithId])
        requires
            from <= to <= self@.len(),
        ensures
            r@ == self.entries().subrange(from as int, to as int),
    {
        vstd::slice::slice_subrange(self.0.as_slice(), from, to)
    }

    /// Reads the list of companions that starts at `start`.
    pub fn read(b: &[u8], start: usize) -> (r: Result<(Companions, usize), DecodeError>)
        requires
            start <= b@.len(),
        ensures
            match parse_companion_list(b@.subrange(start as int, b@.len() as int)) {
                Ok((cs, used)) => r matches Ok((c, end)) && c@ == cs && end == start + used
                    && c.names_are_text(),
                Err(e) => r matches Err(e2) && e2 == e,
            },
    {
        let len = b.len();
        let ghost whole = b@.subrange(start as int, len as int);
        let mut list: Vec<CompanionWithId> = Vec::new();
        let mut pos: usize = start;
        proof {
            assert(b@.subrange(pos as int, len as int) =~= whole);
            assert(list@.map_values(|c: CompanionWithId| c@) =~= Seq::<(Seq<u8>, u32)>::empty());
        }
        loop
            invariant
                start <= pos <= len,
                len == b@.len(),
                whole == b@.subrange(start as int, len as int),
                parse_companion_list(whole) == prepend_companions(
                    list@.map_values(|c: CompanionWithId| c@),
                    (pos - start) as nat,
                    parse_companion_list(b@.subrange(pos as int, len as int)),
                ),
                forall|i: int|
                    0 <= i < list@.len() ==> valid_companion(#[trigger] list@[i]@) && list@[i].text()
                        == lossy_text(list@[i]@.0),
            decreases len - pos,
        {
            let ghost t = b@.subrange(pos as int, len as int);
            let ghost acc = list@.map_values(|c: CompanionWithId| c@);
            if len - pos < ID_ENTRY_SIZE {
                return Err(DecodeError::Truncated);
            }
            let is_marker = b[pos + 28] == 0x01 && b[pos + 29] == 0x00 && b[pos + 30] == 0x10
                && b[pos + 31] == 0x01;
            if !is_marker {
                proof {
                    let m = t.subrange(ID_RECORD_SIZE as int, ID_ENTRY_SIZE as int);
                    if m == marker() {
                        assert(m[0] == b[pos + 28] && m[1] == b[pos + 29] && m[2] == b[pos + 30] && m[3] == b[pos + 31]);
                    }
                    assert(acc + Seq::<(Seq<u8>, u32)>::empty() =~= acc);
                }
                return Ok((Companions(list), pos));
            }
            proof {
                assert(t.subrange(ID_RECORD_SIZE as int, ID_ENTRY_SIZE as int) =~= marker());
                let rec = t.subrange(0, ID_RECORD_SIZE as int);
                assert(rec.subrange(0, ID_NAME_WIDTH as int) =~= b@.subrange(pos as int, pos + 24));
                assert(rec.subrange(ID_NAME_WIDTH as int, ID_RECORD_SIZE as int) =~= b@.subrange(pos + 24, pos + 28));
            }
            let name_bytes = read_field(b, pos, ID_NAME_WIDTH);
            let id = read_le(b, pos + ID_NAME_WIDTH, 4);
            proof {
                lemma_le_value_bound_4(b@.subrange(pos + 24, pos + 28));
            }
            if id == 0 {
                return Err(DecodeError::ZeroSteamId);
            }
            let name = lossy_string(name_bytes.as_slice());
            let companion = CompanionWithId { name, name_bytes, steam_id: id as u32 };
            proof {
                let rec = t.subrange(0, ID_RECORD_SIZE as int);
                lemma_field_bytes_fit(rec.subrange(0, ID_NAME_WIDTH as int));
                reveal(valid_companion);
                assert(parse_companion(rec) == Ok::<(Seq<u8>, u32), DecodeError>(companion@));
                assert(t.subrange(ID_ENTRY_SIZE as int, t.len() as int) =~= b@.subrange(pos + 32, len as int));
            }
            let ghost prev = list@;
            list.push(companion);
            pos = pos + ID_ENTRY_SIZE;
            proof {
                let new_acc = list@.map_values(|c: CompanionWithId| c@);
                assert(new_acc =~= acc + seq![companion@]);
                let rest = parse_companion_list(b@.subrange(pos as int, len as int));
                if rest is Ok {
                    let (rs, used) = rest->Ok_0;
                    assert(acc + (seq![companion@] + rs) =~= new_acc + rs);
                }
                assert forall|i: int| 0 <= i < list@.len() implies valid_companion(#[trigger] list@[i]@)
                    && list@[i].text() == lossy_text(list@[i]@.0) by {
                    if i < list@.len() - 1 {
                        assert(list@[i] == prev[i]);
                    }
                }
            }
        }
    }

    /// Appends each companion record, followed by the marker.
    pub fn write(&self, out: &mut Vec<u8>)
        ensures
            final(out)@ == old(out)@ + companion_list_bytes(self@),
    {
        proof {
            use_type_invariant(self);
        }
        let mut i: usize = 0;
        proof {
            assert(self@.subrange(0, 0) =~= Seq::<(Seq<u8>, u32)>::empty());
            assert(out@ =~= old(out)@ + companion_list_bytes(self@.subrange(0, 0)));
        }
        while i < self.0.len()
            invariant
                i <= self.0@.len(),
                out@ == old(out)@ + companion_list_bytes(self@.subrange(0, i as int)),
                forall|j: int| 0 <= j < self.0@.len() ==> valid_companion(#[trigger] self.0@[j]@),
            decreases self.0@.len() - i,
        {
            let c = &self.0[i];
            assert(valid_companion(self.0@[i as int]@));
            proof {
                reveal(valid_companion);
            }
            write_field(out, &c.name_bytes, ID_NAME_WIDTH);
            push_le(out, c.steam_id as u64, 4);
            out.push(0x01);
            out.push(0x00);
            out.push(0x10);
            out.push(0x01);
            proof {
                lemma_companion_list_bytes_push(self@.subrange(0, i as int), c@);
                assert(self@.subrange(0, i + 1) =~= self@.subrange(0, i as int).push(c@));
                assert(out@ =~= old(out)@ + companion_list_bytes(self@.subrange(0, i + 1)));
            }
            i = i + 1;
        }
        proof {
            assert(self@.subrange(0, self.0@.len() as int) =~= self@);
        }
    }
}

/// A companion with the symbol they wear. The name is kept as the bytes the file holds; `name`
/// is their text.
#[derive(Debug)]
pub struct CompanionWithSymbol {
    pub name: String,
    name_bytes: Vec<u8>,
    reserved: Vec<u8>,
    pub symbol: u32,
}

impl View for CompanionWithSymbol {
    type V = (Seq<u8>, Seq<u8>, u32);

    closed spec fn view(&self) -> (Seq<u8>, Seq<u8>, u32) {
        (self.name_bytes@, self.reserved@, self.symbol)
    }
}

impl CompanionWithSymbol {
    /// The name as text.
    pub closed spec fn text(&self) -> Seq<char> {
        self.name@
    }
}

/// Whether a companion-symbol entry can be stored: a name that is not empty and fits its field,
/// four reserved bytes and a symbol id up to 21.
pub open spec fn valid_symbol_entry(e: (Seq<u8>, Seq<u8>, u32)) -> bool {
    &&& e.0.len() > 0
    &&& fits(e.0, SYMBOL_NAME_WIDTH as nat)
    &&& e.1.len() == 4
    &&& e.2 <= MAX_COMPANION_SYMBOL
}

/// Reads one companion-symbol record of 60 bytes.
pub open spec fn parse_symbol_entry(rec: Seq<u8>) -> Result<(Seq<u8>, Seq<u8>, u32), DecodeError> {
    let symbol = le_value(rec.subrange(56, 60));
    if symbol > MAX_COMPANION_SYMBOL {
        Err(DecodeError::CompanionSymbolOutOfRange(symbol as u32))
    } else {
        Ok((field_bytes(rec.subrange(0, SYMBOL_NAME_WIDTH as int)), rec.subrange(52, 56), symbol as u32))
    }
}

/// The 60 bytes of a companion-symbol record.
pub open spec fn symbol_entry_bytes(e: (Seq<u8>, Seq<u8>, u32)) -> Seq<u8> {
    padded(e.0, SYMBOL_NAME_WIDTH as nat) + e.1 + le_bytes(e.2 as nat, 4)
}

/// Reads at most `budget` companion-symbol records from the start of `s`, stopping at the first
/// record whose name is empty.
pub open spec fn parse_symbol_entries(s: Seq<u8>, budget: nat) -> Result<Seq<(Seq<u8>, Seq<u8>, u32)>, DecodeError>
    decreases budget,
{
    if budget == 0 || s.len() < SYMBOL_ENTRY_SIZE || s[0] == 0 {
        Ok(Seq::empty())
    } else {
        match parse_symbol_entry(s.subrange(0, SYMBOL_ENTRY_SIZE as int)) {
            Err(e) => Err(e),
            Ok(e) => match parse_symbol_entries(s.subrange(SYMBOL_ENTRY_SIZE as int, s.len() as int), (budget - 1) as nat) {
                Err(err) => Err(err),
                Ok(rest) => Ok(seq![e] + rest),
            },
        }
    }
}

/// Reads the companion-symbol section.
pub open spec fn parse_symbol_section(section: Seq<u8>) -> Result<Seq<(Seq<u8>, Seq<u8>, u32)>, DecodeError> {
    parse_symbol_entries(section, MAX_SYMBOL_ENTRIES as nat)
}

/// The bytes of a list of companion-symbol records.
pub open spec fn symbol_list_bytes(es: Seq<(Seq<u8>, Seq<u8>, u32)>) -> Seq<u8>
    decreases es.len(),
{
    if es.len() == 0 {
        Seq::empty()
    } else {
        symbol_entry_bytes(es[0]) + symbol_list_bytes(es.drop_first())
    }
}

/// The companion-symbol section: the records, then zeros up to its fixed size.
pub open spec fn symbol_section_bytes(es: Seq<(Seq<u8>, Seq<u8>, u32)>) -> Seq<u8> {
    symbol_list_bytes(es) + zeros((SYMBOL_SECTION_SIZE - SYMBOL_ENTRY_SIZE * es.len()) as nat)
}

spec fn prepend_entries(
    acc: Seq<(Seq<u8>, Seq<u8>, u32)>,
    r: Result<Seq<(Seq<u8>, Seq<u8>, u32)>, DecodeError>,
) -> Result<Seq<(Seq<u8>, Seq<u8>, u32)>, DecodeError> {
    match r {
        Ok(rest) => Ok(acc + rest),
        Err(e) => Err(e),
    }
}

proof fn lemma_symbol_entry_round_trip(e: (Seq<u8>, Seq<u8>, u32))
    requires
        valid_symbol_entry(e),
    ensures
        symbol_entry_bytes(e).len() == SYMBOL_ENTRY_SIZE,
        symbol_entry_bytes(e)[0] != 0,
        parse_symbol_entry(symbol_entry_bytes(e)) == Ok::<(Seq<u8>, Seq<u8>, u32), DecodeError>(e),
{
    lemma_padded_round_trip(e.0, SYMBOL_NAME_WIDTH as nat);
    assert(padded(e.0, SYMBOL_NAME_WIDTH as nat)[0] == e.0[0]);
    lemma_pow256_values();
    lemma_le_round_trip(e.2 as nat, 4);
    let b = symbol_entry_bytes(e);
    assert(b.subrange(0, SYMBOL_NAME_WIDTH as int) =~= padded(e.0, SYMBOL_NAME_WIDTH as nat));
    assert(b.subrange(52, 56) =~= e.1);
    assert(b.subrange(56, 60) =~= le_bytes(e.2 as nat, 4));
}

proof fn lemma_symbol_list_bytes_push(es: Seq<(Seq<u8>, Seq<u8>, u32)>, e: (Seq<u8>, Seq<u8>, u32))
    ensures
        symbol_list_bytes(es.push(e)) == symbol_list_bytes(es) + symbol_entry_bytes(e),
    decreases es.len(),
{
    let empty = Seq::<(Seq<u8>, Seq<u8>, u32)>::empty();
    assert(symbol_list_bytes(empty) == Seq::<u8>::empty());
    if es.len() == 0 {
        assert(es.push(e).drop_first() =~= empty);
        assert(es.push(e)[0] == e);
        assert(symbol_list_bytes(es.push(e)) == symbol_entry_bytes(e) + symbol_list_bytes(empty));
        assert(symbol_list_bytes(es.push(e)) =~= symbol_list_bytes(es) + symbol_entry_bytes(e));
    } else {
        assert(es.push(e).drop_first() =~= es.drop_first().push(e));
        assert(es.push(e)[0] == es[0]);
        lemma_symbol_list_bytes_push(es.drop_first(), e);
        assert(symbol_list_bytes(es.push(e)) == symbol_entry_bytes(es[0]) + symbol_list_bytes(es.drop_first().push(e)));
        assert(symbol_list_bytes(es.push(e)) =~= symbol_list_bytes(es) + symbol_entry_bytes(e));
    }
}

proof fn lemma_symbol_list_round_trip(es: Seq<(Seq<u8>, Seq<u8>, u32)>, k: nat, budget: nat)
    requires
        es.len() <= budget,
        forall|i: int| 0 <= i < es.len() ==> valid_symbol_entry(#[trigger] es[i]),
    ensures
        symbol_list_bytes(es).len() == SYMBOL_ENTRY_SIZE * es.len(),
        parse_symbol_entries(symbol_list_bytes(es) + zeros(k), budget) == Ok::<Seq<(Seq<u8>, Seq<u8>, u32)>, DecodeError>(es),
    decreases es.len(),
{
    let s = symbol_list_bytes(es) + zeros(k);
    if es.len() == 0 {
        assert(s =~= zeros(k));
        assert(es =~= Seq::<(Seq<u8>, Seq<u8>, u32)>::empty());
        if budget > 0 && s.len() >= SYMBOL_ENTRY_SIZE {
            assert(s[0] == 0);
        }
    } else {
        let e = es[0];
        let tail = es.drop_first();
        assert(valid_symbol_entry(e));
        lemma_symbol_entry_round_trip(e);
        assert forall|i: int| 0 <= i < tail.len() implies valid_symbol_entry(#[trigger] tail[i]) by {
            assert(tail[i] == es[i + 1]);
        }
        lemma_symbol_list_round_trip(tail, k, (budget - 1) as nat);
        let rest = symbol_list_bytes(tail) + zeros(k);
        assert(s =~= symbol_entry_bytes(e) + rest);
        assert(s.subrange(0, SYMBOL_ENTRY_SIZE as int) =~= symbol_entry_bytes(e));
        assert(s.subrange(SYMBOL_ENTRY_SIZE as int, s.len() as int) =~= rest);
        assert(s[0] == symbol_entry_bytes(e)[0]);
        assert(seq![e] + tail =~= es);
    }
}

/// The companion-symbol section of a list of valid entries reads back as that list.
pub proof fn lemma_symbol_section_round_trip(es: Seq<(Seq<u8>, Seq<u8>, u32)>)
    requires
        es.len() <= MAX_SYMBOL_ENTRIES,
        forall|i: int| 0 <= i < es.len() ==> valid_symbol_entry(#[trigger] es[i]),
    ensures
        symbol_section_bytes(es).len() == SYMBOL_SECTION_SIZE,
        parse_symbol_section(symbol_section_bytes(es)) == Ok::<Seq<(Seq<u8>, Seq<u8>, u32)>, DecodeError>(es),
{
    lemma_symbol_list_round_trip(es, (SYMBOL_SECTION_SIZE - SYMBOL_ENTRY_SIZE * es.len()) as nat, MAX_SYMBOL_ENTRIES as nat);
}

/// Every entry read from the section is valid, and there are at most 16 of them.
pub proof fn lemma_symbol_entries_valid(s: Seq<u8>, budget: nat)
    requires
        parse_symbol_entries(s, budget) is Ok,
    ensures
        parse_symbol_entries(s, budget)->Ok_0.len() <= budget,
        forall|i: int| 0 <= i < parse_symbol_entries(s, budget)->Ok_0.len()
            ==> valid_symbol_entry(#[trigger] parse_symbol_entries(s, budget)->Ok_0[i]),
    decreases budget,
{
    if !(budget == 0 || s.len() < SYMBOL_ENTRY_SIZE || s[0] == 0) {
        let rec = s.subrange(0, SYMBOL_ENTRY_SIZE as int);
        let e = parse_symbol_entry(rec)->Ok_0;
        let rest_s = s.subrange(SYMBOL_ENTRY_SIZE as int, s.len() as int);
        lemma_symbol_entries_valid(rest_s, (budget - 1) as nat);
        let field = rec.subrange(0, SYMBOL_NAME_WIDTH as int);
        lemma_field_bytes_fit(field);
        assert(field[0] == s[0]);
        lemma_le_value_bound_4(rec.subrange(56, 60));
        assert(valid_symbol_entry(e));
        let es = parse_symbol_entries(s, budget)->Ok_0;
        let rest = parse_symbol_entries(rest_s, (budget - 1) as nat)->Ok_0;
        assert(es == seq![e] + rest);
        assert forall|i: int| 0 <= i < es.len() implies valid_symbol_entry(#[trigger] es[i]) by {
            if i > 0 {
                assert(es[i] == rest[i - 1]);
            }
        }
    }
}

/// The companions with the symbols they wear, in the fixed-size section of the save file.
#[derive(Debug)]
pub struct CompanionSymbols(Vec<CompanionWithSymbol>);

impl View for CompanionSymbols {
    type V = Seq<(Seq<u8>, Seq<u8>, u32)>;

    closed spec fn view(&self) -> Seq<(Seq<u8>, Seq<u8>, u32)> {
        self.0@.map_values(|c: CompanionWithSymbol| c@)
    }
}

impl CompanionSymbols {
    #[verifier::type_invariant]
    spec fn inv(self) -> bool {
        &&& self.0@.len() <= MAX_SYMBOL_ENTRIES
        &&& forall|i: int|
            0 <= i < self.0@.len() ==> valid_symbol_entry(#[trigger] self.0@[i]@) && self.0@[i].text()
                == lossy_text(self.0@[i]@.0)
    }

    /// Each entry's name is the text of its stored bytes.
    pub open spec fn names_are_text(&self) -> bool {
        forall|i: int|
            0 <= i < self.entries().len() ==> #[trigger] self.entries()[i].text() == lossy_text(
                self.entries()[i]@.0,
            )
    }

    /// The entries, in order.
    pub closed spec fn entries(&self) -> Seq<CompanionWithSymbol> {
        self.0@
    }

    /// The entries are the companions of the view, one for one.
    pub proof fn lemma_entries(&self)
        ensures
            self.entries().len() == self@.len(),
            forall|i: int| 0 <= i < self@.len() ==> #[trigger] self.entries()[i]@ == self@[i],
    {
    }

    /// The entries, in order.
    pub fn iter(&self) -> (r: std::slice::Iter<'_, CompanionWithSymbol>)
        ensures
            vstd::std_specs::slice::into_iter_elts(r) == self.entries(),
            self.names_are_text(),
    {
        proof {
            use_type_invariant(self);
        }
        self.0.iter()
    }

    /// How many there are.
    pub fn count(&self) -> (r: usize)
        ensures
            r == self@.len(),
    {
        self.0.len()
    }

    /// Reads the section of 960 bytes that starts at `start`.
    pub fn read(b: &[u8], start: usize) -> (r: Result<CompanionSymbols, DecodeError>)
        requires
            start + SYMBOL_SECTION_SIZE <= b@.len(),
        ensures
            match parse_symbol_section(b@.subrange(start as int, start + SYMBOL_SECTION_SIZE)) {
                Ok(es) => r matches Ok(c) && c@ == es && c.names_are_text(),
                Err(e) => r matches Err(e2) && e2 == e,
            },
    {
        let len = b.len();
        let ghost section = b@.subrange(start as int, start + SYMBOL_SECTION_SIZE);
        let mut list: Vec<CompanionWithSymbol> = Vec::new();
        let mut k: usize = 0;
        proof {
            assert(section.subrange(0, section.len() as int) =~= section);
            assert(list@.map_values(|c: CompanionWithSymbol| c@) =~= Seq::<(Seq<u8>, Seq<u8>, u32)>::empty());
        }
        while k < MAX_SYMBOL_ENTRIES
            invariant
                k <= MAX_SYMBOL_ENTRIES,
                list@.len() == k,
                start + SYMBOL_SECTION_SIZE <= len,
                len == b@.len(),
                section == b@.subrange(start as int, start + SYMBOL_SECTION_SIZE),
                parse_symbol_section(section) == prepend_entries(
                    list@.map_values(|c: CompanionWithSymbol| c@),
                    parse_symbol_entries(section.subrange(SYMBOL_ENTRY_SIZE * k, section.len() as int), (MAX_SYMBOL_ENTRIES - k) as nat),
                ),
                forall|i: int|
                    0 <= i < list@.len() ==> valid_symbol_entry(#[trigger] list@[i]@) && list@[i].text()
                        == lossy_text(list@[i]@.0),
            decreases MAX_SYMBOL_ENTRIES - k,
        {
            let ghost s = section.subrange(SYMBOL_ENTRY_SIZE * k, section.len() as int);
            let ghost acc = list@.map_values(|c: CompanionWithSymbol| c@);
            let pos = start + SYMBOL_ENTRY_SIZE * k;
            if b[pos] == 0 {
                proof {
                    assert(s[0] == b@[pos as int]);
                    assert(acc + Seq::<(Seq<u8>, Seq<u8>, u32)>::empty() =~= acc);
                }
                return Ok(CompanionSymbols(list));
            }
            proof {
                let rec = s.subrange(0, SYMBOL_ENTRY_SIZE as int);
                assert(s[0] == b@[pos as int]);
                assert(rec.subrange(0, SYMBOL_NAME_WIDTH as int) =~= b@.subrange(pos as int, pos + 52));
                assert(rec.subrange(56, 60) =~= b@.subrange(pos + 56, pos + 60));
                assert(rec.subrange(52, 56) =~= b@.subrange(pos + 52, pos + 56));
            }
            let name_bytes = read_field(b, pos, SYMBOL_NAME_WIDTH);
            let symbol = read_le(b, pos + 56, 4);
            proof {
                lemma_le_value_bound_4(b@.subrange(pos + 56, pos + 60));
            }
            if symbol > MAX_COMPANION_SYMBOL as u64 {
                return Err(DecodeError::CompanionSymbolOutOfRange(symbol as u32));
            }
            let reserved = copy_bytes(b, pos + 52, 4);
            let name = lossy_string(name_bytes.as_slice());
            let entry = CompanionWithSymbol { name, name_bytes, reserved, symbol: symbol as u32 };
            proof {
                let rec = s.subrange(0, SYMBOL_ENTRY_SIZE as int);
                assert(parse_symbol_entry(rec) == Ok::<(Seq<u8>, Seq<u8>, u32), DecodeError>(entry@));
                assert(s.subrange(SYMBOL_ENTRY_SIZE as int, s.len() as int) =~= section.subrange(SYMBOL_ENTRY_SIZE * (k + 1), section.len() as int));
                let field = rec.subrange(0, SYMBOL_NAME_WIDTH as int);
                lemma_field_bytes_fit(field);
                assert(field[0] == s[0]);
                assert(valid_symbol_entry(entry@));
            }
            let ghost prev = list@;
            list.push(entry);
            k = k + 1;
            proof {
                let new_acc = list@.map_values(|c: CompanionWithSymbol| c@);
                assert(new_acc =~= acc + seq![entry@]);
                let rest = parse_symbol_entries(section.subrange(SYMBOL_ENTRY_SIZE * k, section.len() as int), (MAX_SYMBOL_ENTRIES - k) as nat);
                if rest is Ok {
                    assert(acc + (seq![entry@] + rest->Ok_0) =~= new_acc + rest->Ok_0);
                }
                assert forall|i: int| 0 <= i < list@.len() implies valid_symbol_entry(#[trigger] list@[i]@)
                    && list@[i].text() == lossy_text(list@[i]@.0) by {
                    if i < list@.len() - 1 {
                        assert(list@[i] == prev[i]);
                    }
                }
            }
        }
        proof {
            let acc = list@.map_values(|c: CompanionWithSymbol| c@);
            assert(acc + Seq::<(Seq<u8>, Seq<u8>, u32)>::empty() =~= acc);
        }
        Ok(CompanionSymbols(list))
    }

    /// Appends the section: each record, then zeros up to 960 bytes.
    pub fn write(&self, out: &mut Vec<u8>)
        ensures
            final(out)@ == old(out)@ + symbol_section_bytes(self@),
    {
        proof {
            use_type_invariant(self);
        }
        let ghost start = out@;
        let mut i: usize = 0;
        proof {
            assert(self@.subrange(0, 0) =~= Seq::<(Seq<u8>, Seq<u8>, u32)>::empty());
            assert(out@ =~= start + symbol_list_bytes(self@.subrange(0, 0)));
        }
        while i < self.0.len()
            invariant
                i <= self.0@.len(),
                self.0@.len() <= MAX_SYMBOL_ENTRIES,
                start == old(out)@,
                out@ == start + symbol_list_bytes(self@.subrange(0, i as int)),
                forall|j: int| 0 <= j < self.0@.len() ==> valid_symbol_entry(#[trigger] self.0@[j]@),
            decreases self.0@.len() - i,
        {
            let e = &self.0[i];
            assert(valid_symbol_entry(self.0@[i as int]@));
            write_field(out, &e.name_bytes, SYMBOL_NAME_WIDTH);
            push_bytes(out, e.reserved.as_slice());
            push_le(out, e.symbol as u64, 4);
            proof {
                lemma_symbol_list_bytes_push(self@.subrange(0, i as int), e@);
                assert(self@.subrange(0, i + 1) =~= self@.subrange(0, i as int).push(e@));
                assert(out@ =~= start + symbol_list_bytes(self@.subrange(0, i + 1)));
            }
            i = i + 1;
        }
        push_zeros(out, SYMBOL_SECTION_SIZE - SYMBOL_ENTRY_SIZE * self.0.len());
        proof {
            assert(self@.subrange(0, self.0@.len() as int) =~= self@);
            assert(out@ =~= old(out)@ + symbol_section_bytes(self@));
        }
    }
}

/// Four bytes hold a value that fits in 32 bits.
proof fn lemma_le_value_bound_4(s: Seq<u8>)
    requires
        s.len() == 4,
    ensures
        le_value(s) < 0x1_0000_0000,
{
    crate::bytes::lemma_le_value_bound(s);
    lemma_pow256_values();
}

} // verus!
