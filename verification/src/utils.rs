//! Reading the inbox listing that the Geometry Dash servers send, and picking
//! the server to talk to.

use vstd::prelude::*;
use vstd::utf8::encode_utf8;

use crate::external::{
    base64_decode, base64_decoded, random_below, utf8_lossy, utf8_lossy_decoded,
};
use crate::structs::{GDMessage, GenericError};
use crate::text::{
    all_digits, chars_of, count_char, digits_value, is_digit, lacks_char, law_split_count,
    lemma_digits_value_nonneg, lemma_split_join, lemma_split_single, lemma_trim_end_kept,     parse_decimal_range, parse_i32, parse_i64, split_range, split_seq, trim_end_range,
    trim_end_spaces,
};

verus! {

/// The answer that means the inbox is empty.
pub open spec fn no_messages_marker() -> Seq<char> {
    seq!['-', '2']
}

/// The messages of a listing, separated by `|`.
pub open spec fn listing_records(listing: Seq<char>) -> Seq<Seq<char>> {
    split_seq(listing, '|')
}

/// A listing holds one message more than it has `|` separators, so a listing
/// that reads holds exactly that many messages.
pub proof fn law_listing_message_count(listing: Seq<char>)
    ensures
        listing_records(listing).len() == count_char(listing, '|') + 1,
{
    law_split_count(listing, '|');
}

/// `a` and `b` joined by `:`.
pub open spec fn join_colon(a: Seq<char>, b: Seq<char>) -> Seq<char> {
    a + seq![':'] + b
}

/// The listing entry `1:<id>:2:<sender>:4:<subject>`.
pub open spec fn message_record(id: Seq<char>, sender: Seq<char>, subject: Seq<char>) -> Seq<char> {
    join_colon(
        join_colon(join_colon(join_colon(join_colon(seq!['1'], id), seq!['2']), sender), seq!['4']),
        subject,
    )
}

proof fn lemma_single_digit_key(c: char)
    requires
        '0' <= c <= '9',
    ensures
        parse_i32(seq![c]) == Some(c as int - '0' as int),
{
    let s = seq![c];
    assert(s.drop_last() =~= Seq::<char>::empty());
    assert(digits_value(s.drop_last()) == 0);
    assert(s.last() == c);
    assert(digits_value(s) == c as int - '0' as int);
    assert(all_digits(s));
}

/// A message written as `1:<id>:2:<sender>:4:<subject>` is read back with
/// that id, that sender and that subject, when the id and subject hold no
/// `:` and end in no space, and the sender is a decimal number that fits an
/// `i64`.
pub proof fn law_message_read_back(id: Seq<char>, sender: Seq<char>, subject: Seq<char>)
    requires
        lacks_char(id, ':'),
        lacks_char(subject, ':'),
        id.len() == 0 || id.last() != ' ',
        subject.len() == 0 || subject.last() != ' ',
        sender.len() > 0,
        all_digits(sender),
        digits_value(sender) <= i64::MAX,
    ensures
        record_valid(message_record(id, sender, subject)),
        message_id(message_record(id, sender, subject)) == id,
        message_from(message_record(id, sender, subject)) == digits_value(sender),
        subject_bytes(message_record(id, sender, subject)) == before_nul(encode_utf8(subject)),
{
    let r = message_record(id, sender, subject);
    let k1 = seq!['1'];
    let k2 = seq!['2'];
    let k4 = seq!['4'];
    assert(lacks_char(k1, ':'));
    assert(lacks_char(k2, ':'));
    assert(lacks_char(k4, ':'));
    assert(lacks_char(sender, ':')) by {
        assert forall|i: int| 0 <= i < sender.len() implies sender[i] != ':' by {
            assert(is_digit(sender[i]));
        }
    }
    lemma_split_single(k1, ':');
    lemma_split_single(id, ':');
    lemma_split_single(k2, ':');
    lemma_split_single(sender, ':');
    lemma_split_single(k4, ':');
    lemma_split_single(subject, ':');
    let j1 = join_colon(k1, id);
    let j2 = join_colon(j1, k2);
    let j3 = join_colon(j2, sender);
    let j4 = join_colon(j3, k4);
    lemma_split_join(k1, id, ':');
    lemma_split_join(j1, k2, ':');
    lemma_split_join(j2, sender, ':');
    lemma_split_join(j3, k4, ':');
    lemma_split_join(j4, subject, ':');
    let fields = record_fields(r);
    assert(fields =~= seq![k1, id, k2, sender, k4, subject]);
    lemma_single_digit_key('1');
    lemma_single_digit_key('2');
    lemma_single_digit_key('4');
    assert(key_field(fields, 0) == k1);
    assert(key_field(fields, 1) == k2);
    assert(key_field(fields, 2) == k4);
    assert forall|p: int| 0 <= p && 2 * p < fields.len() implies (#[trigger] parse_i32(
        key_field(fields, p),
    )) is Some by {
        assert(p == 0 || p == 1 || p == 2);
    }
    lemma_trim_end_kept(id);
    lemma_trim_end_kept(subject);
    assert(is_digit(sender.last()));
    lemma_trim_end_kept(sender);
    let m = record_map(r);
    assert(fields.len() as int / 2 == 3);
    assert(pairs_map(fields, 0) == Map::<int, Seq<char>>::empty());
    assert(pairs_map(fields, 1) == Map::<int, Seq<char>>::empty().insert(1, id));
    assert(pairs_map(fields, 2) == Map::<int, Seq<char>>::empty().insert(1, id).insert(2, sender));
    assert(m == Map::<int, Seq<char>>::empty().insert(1, id).insert(2, sender).insert(4, subject));
    lemma_digits_value_nonneg(sender);
    assert(sender[0] != '+' && sender[0] != '-') by {
        assert(is_digit(sender[0]));
    }
    assert(parse_i64(sender) == Some(digits_value(sender)));
}

/// The fields of a message, separated by `:`; they alternate key and value.
pub open spec fn record_fields(record: Seq<char>) -> Seq<Seq<char>> {
    split_seq(record, ':')
}

/// The `p`-th key of a message's fields.
pub open spec fn key_field(fields: Seq<Seq<char>>, p: int) -> Seq<char> {
    fields[2 * p]
}

/// Every key of the message reads as an `i32`.
pub open spec fn record_valid(record: Seq<char>) -> bool {
    let fields = record_fields(record);
    forall|p: int|
        0 <= p && 2 * p < fields.len() ==> (#[trigger] parse_i32(key_field(fields, p))) is Some
}

/// The values of the first `pairs` key/value pairs, each without its trailing
/// spaces; a later value for a key replaces an earlier one.
pub open spec fn pairs_map(fields: Seq<Seq<char>>, pairs: int) -> Map<int, Seq<char>>
    decreases pairs,
{
    if pairs <= 0 {
        Map::empty()
    } else {
        pairs_map(fields, pairs - 1).insert(
            parse_i32(key_field(fields, pairs - 1)).unwrap(),
            trim_end_spaces(fields[2 * pairs - 1]),
        )
    }
}

/// The values of a message by key. A trailing key without a value is ignored.
pub open spec fn record_map(record: Seq<char>) -> Map<int, Seq<char>> {
    pairs_map(record_fields(record), record_fields(record).len() as int / 2)
}

proof fn lemma_pairs_map_last(fields: Seq<Seq<char>>, p: int, n: int)
    requires
        0 <= p < n,
        forall|q: int|
            p < q < n ==> parse_i32(#[trigger] key_field(fields, q)).unwrap() != parse_i32(
                key_field(fields, p),
            ).unwrap(),
    ensures
        pairs_map(fields, n).dom().contains(parse_i32(key_field(fields, p)).unwrap()),
        pairs_map(fields, n)[parse_i32(key_field(fields, p)).unwrap()] == trim_end_spaces(
            fields[2 * p + 1],
        ),
    decreases n,
{
    if n > p + 1 {
        lemma_pairs_map_last(fields, p, n - 1);
        assert(parse_i32(key_field(fields, n - 1)).unwrap() != parse_i32(
            key_field(fields, p),
        ).unwrap());
    }
}

proof fn lemma_pairs_map_keys(fields: Seq<Seq<char>>, n: int, k: int)
    requires
        n >= 0,
        pairs_map(fields, n).dom().contains(k),
    ensures
        exists|p: int| 0 <= p < n && parse_i32(#[trigger] key_field(fields, p)).unwrap() == k,
    decreases n,
{
    if n > 0 {
        if parse_i32(key_field(fields, n - 1)).unwrap() != k {
            lemma_pairs_map_keys(fields, n - 1, k);
            let p = choose|p: int| 0 <= p < n - 1 && parse_i32(#[trigger] key_field(fields, p)).unwrap() == k;
            assert(0 <= p < n && parse_i32(key_field(fields, p)).unwrap() == k);
        }
    }
}

/// Every key/value pair of a message counts, wherever it stands: the value
/// read for the key of pair `p` is that pair's value without trailing
/// spaces, when no later pair has the same key.
pub proof fn law_record_value_of_last_pair(record: Seq<char>, p: int)
    requires
        record_valid(record),
        0 <= p,
        2 * p + 1 < split_seq(record, ':').len(),
        forall|q: int|
            p < q && 2 * q + 1 < split_seq(record, ':').len() ==> parse_i32(
                #[trigger] key_field(split_seq(record, ':'), q),
            ) != parse_i32(key_field(split_seq(record, ':'), p)),
    ensures
        record_map(record).dom().contains(parse_i32(split_seq(record, ':')[2 * p]).unwrap()),
        record_map(record)[parse_i32(split_seq(record, ':')[2 * p]).unwrap()] == trim_end_spaces(
            split_seq(record, ':')[2 * p + 1],
        ),
{
    let fields = split_seq(record, ':');
    let n = fields.len() as int / 2;
    assert(key_field(fields, p) == fields[2 * p]);
    assert forall|q: int| p < q < n implies parse_i32(#[trigger] key_field(fields, q)).unwrap()
        != parse_i32(key_field(fields, p)).unwrap() by {
        assert(2 * q + 1 < fields.len());
        assert(parse_i32(key_field(fields, q)) is Some);
        assert(parse_i32(key_field(fields, p)) is Some);
    }
    lemma_pairs_map_last(fields, p, n);
}

/// A message's values are only those of its pairs: every key read is the key
/// of one of its key/value pairs.
pub proof fn law_record_keys_come_from_pairs(record: Seq<char>, k: int)
    requires
        record_map(record).dom().contains(k),
    ensures
        exists|p: int|
            0 <= p && 2 * p + 1 < split_seq(record, ':').len() && parse_i32(
                #[trigger] key_field(split_seq(record, ':'), p),
            ).unwrap() == k,
{
    let fields = split_seq(record, ':');
    let n = fields.len() as int / 2;
    lemma_pairs_map_keys(fields, n, k);
    let p = choose|p: int| 0 <= p < n && parse_i32(#[trigger] key_field(fields, p)).unwrap() == k;
    assert(2 * p + 1 < fields.len());
}

/// Key of a message's id.
pub const KEY_MESSAGE_ID: i32 = 1;

/// Key of the sender's account id.
pub const KEY_ACCOUNT_ID: i32 = 2;

/// Key of the subject.
pub const KEY_SUBJECT: i32 = 4;

/// The message id: the value of key 1, or `"0"`.
pub open spec fn message_id(record: Seq<char>) -> Seq<char> {
    let m = record_map(record);
    if m.dom().contains(KEY_MESSAGE_ID as int) {
        m[KEY_MESSAGE_ID as int]
    } else {
        seq!['0']
    }
}

/// The sender: the value of key 2 read as an `i64`; `-1` when it does not
/// read, and `0` when the key is absent.
pub open spec fn message_from(record: Seq<char>) -> int {
    let m = record_map(record);
    if m.dom().contains(KEY_ACCOUNT_ID as int) {
        match parse_i64(m[KEY_ACCOUNT_ID as int]) {
            Some(v) => v,
            None => -1,
        }
    } else {
        0
    }
}

/// The bytes of `b` before its first zero byte.
pub open spec fn before_nul(b: Seq<u8>) -> Seq<u8>
    decreases b.len(),
{
    if b.len() == 0 {
        b
    } else {
        let p = before_nul(b.drop_last());
        if p.len() < b.len() - 1 || b.last() == 0 {
            p
        } else {
            b
        }
    }
}

/// The base64 text of the subject: the UTF-8 bytes of the value of key 4 (or
/// of nothing), up to its first zero byte.
pub open spec fn subject_bytes(record: Seq<char>) -> Seq<u8> {
    let m = record_map(record);
    let text = if m.dom().contains(KEY_SUBJECT as int) {
        m[KEY_SUBJECT as int]
    } else {
        Seq::<char>::empty()
    };
    before_nul(encode_utf8(text))
}

/// The subject, decoded from base64 and read as UTF-8.
pub open spec fn message_subject(record: Seq<char>) -> Seq<char> {
    utf8_lossy_decoded(base64_decoded(subject_bytes(record)))
}

pub open spec fn is_ascii_bytes(b: Seq<u8>) -> bool {
    forall|i: int| 0 <= i < b.len() ==> b[i] < 128
}

/// `m` is the message that `record` describes.
pub open spec fn message_matches(m: GDMessage, record: Seq<char>) -> bool {
    &&& m.id@ == message_id(record)
    &&& m.from as int == message_from(record)
    &&& m.subject@ == message_subject(record)
}

/// Every subject that gets decoded is ASCII: that is each subject of a message
/// that, with all messages before it, has valid keys.
pub open spec fn messages_decodable(listing: Seq<char>) -> bool {
    let records = listing_records(listing);
    listing == no_messages_marker() || forall|j: int|
        0 <= j < records.len() && (forall|i: int| 0 <= i <= j ==> record_valid(#[trigger] records[i]))
            ==> is_ascii_bytes(#[trigger] subject_bytes(records[j]))
}

/// Where a message's values for keys 1, 2 and 4 stand in the listing.
pub struct RecordSlots {
    pub id: Option<(usize, usize)>,
    pub from: Option<(usize, usize)>,
    pub subject: Option<(usize, usize)>,
}

/// `slot` holds the value of `key` in `m`, as a range of `s`, or is `None`
/// where `m` has no such key.
pub open spec fn slot_holds(s: Seq<char>, slot: Option<(usize, usize)>, m: Map<int, Seq<char>>, key: int) -> bool {
    match slot {
        Some((x, y)) => x <= y <= s.len() && m.dom().contains(key) && s.subrange(x as int, y as int)
            == m[key],
        None => !m.dom().contains(key),
    }
}

pub open spec fn slots_hold(s: Seq<char>, slots: RecordSlots, m: Map<int, Seq<char>>) -> bool {
    &&& slot_holds(s, slots.id, m, KEY_MESSAGE_ID as int)
    &&& slot_holds(s, slots.from, m, KEY_ACCOUNT_ID as int)
    &&& slot_holds(s, slots.subject, m, KEY_SUBJECT as int)
}

/// Reads the keys of the message `s[start..end]` and finds its values for
/// keys 1, 2 and 4; `Err` where a key does not read as an `i32`.
fn scan_record(s: &Vec<char>, start: usize, end: usize) -> (res: Result<RecordSlots, ()>)
    requires
        start <= end <= s@.len(),
    ensures
        res is Ok <==> record_valid(s@.subrange(start as int, end as int)),
        res matches Ok(slots) ==> slots_hold(s@, slots, record_map(s@.subrange(start as int, end as int))),
{
    let ghost record = s@.subrange(start as int, end as int);
    let ghost fields = record_fields(record);
    let ranges = split_range(s, start, end, ':');
    let n = ranges.len();
    let pairs = n / 2;
    let mut slots = RecordSlots { id: None, from: None, subject: None };
    let mut p: usize = 0;
    while p < pairs
        invariant
            start <= end <= s@.len(),
            record == s@.subrange(start as int, end as int),
            fields == record_fields(record),
            n == ranges@.len(),
            n == fields.len(),
            pairs == n / 2,
            p <= pairs,
            forall|i: int|
                #![trigger ranges@[i]]
                0 <= i < ranges@.len() ==> {
                    &&& start <= ranges@[i].0 <= ranges@[i].1 <= end
                    &&& s@.subrange(ranges@[i].0 as int, ranges@[i].1 as int) == fields[i]
                },
            forall|q: int| 0 <= q < p ==> (#[trigger] parse_i32(key_field(fields, q))) is Some,
            slots_hold(s@, slots, pairs_map(fields, p as int)),
        decreases pairs - p,
    {
        let (ka, kb) = ranges[2 * p];
        let (va, vb) = ranges[2 * p + 1];
        let key = parse_decimal_range(s, ka, kb, true, i32::MIN as i128, i32::MAX as i128);
        assert(key_field(fields, p as int) == fields[2 * p]);
        let key = match key {
            Some(k) => k,
            None => {
                assert(!record_valid(record)) by {
                    assert(parse_i32(key_field(fields, p as int)) is None);
                }
                return Err(());
            },
        };
        let ve = trim_end_range(s, va, vb);
        let ghost before = pairs_map(fields, p as int);
        let ghost after = pairs_map(fields, p + 1);
        assert(after == before.insert(key as int, trim_end_spaces(fields[2 * p + 1])));
        if key == 1 {
            slots.id = Some((va, ve));
        } else if key == 2 {
            slots.from = Some((va, ve));
        } else if key == 4 {
            slots.subject = Some((va, ve));
        }
        p = p + 1;
    }
    if n % 2 == 1 {
        let (ka, kb) = ranges[n - 1];
        let last_key = parse_decimal_range(s, ka, kb, true, i32::MIN as i128, i32::MAX as i128);
        assert(key_field(fields, pairs as int) == fields[n - 1]);
        if last_key.is_none() {
            assert(parse_i32(key_field(fields, pairs as int)) is None);
            return Err(());
        }
    }
    assert(record_valid(record)) by {
        assert forall|q: int| 0 <= q && 2 * q < fields.len() implies (#[trigger] parse_i32(
            key_field(fields, q),
        )) is Some by {
            if q >= pairs {
                assert(q == pairs);
            }
        }
    }
    Ok(slots)
}

/// The text of a slot: `s[x..y]`, or nothing for an empty slot.
pub open spec fn slot_text(s: Seq<char>, slot: Option<(usize, usize)>) -> Seq<char> {
    match slot {
        Some((x, y)) => s.subrange(x as int, y as int),
        None => Seq::<char>::empty(),
    }
}

/// The UTF-8 bytes of a slot's text, up to the first zero byte.
fn subject_bytes_of(text: &str, slot: Option<(usize, usize)>) -> (out: Vec<u8>)
    requires
        slot matches Some((x, y)) ==> x <= y <= text@.len(),
    ensures
        out@ == before_nul(encode_utf8(slot_text(text@, slot))),
{
    let value: String = match slot {
        Some((x, y)) => text.substring_char(x, y).to_owned(),
        None => String::new(),
    };
    let bytes = value.as_str().as_bytes();
    assert(bytes@ == encode_utf8(slot_text(text@, slot)));
    let mut out: Vec<u8> = Vec::new();
    let mut found = false;
    let mut i: usize = 0;
    while i < bytes.len()
        invariant
            i <= bytes@.len(),
            out@ == before_nul(bytes@.take(i as int)),
            !found ==> out@ == bytes@.take(i as int),
            found ==> out@.len() < i,
        decreases bytes@.len() - i,
    {
        assert(bytes@.take(i + 1).drop_last() =~= bytes@.take(i as int));
        if !found && bytes[i] != 0 {
            out.push(bytes[i]);
            assert(out@ =~= bytes@.take(i + 1));
        } else {
            found = true;
        }
        i = i + 1;
    }
    assert(bytes@.take(i as int) =~= bytes@);
    out
}

/// The message at `s[start..end]`, whose keys read and whose subject is ASCII.
fn build_message(text: &str, s: &Vec<char>, slots: RecordSlots, ghost_record: Ghost<Seq<char>>) -> (m: GDMessage)
    requires
        s@ == text@,
        slots_hold(s@, slots, record_map(ghost_record@)),
        is_ascii_bytes(subject_bytes(ghost_record@)),
    ensures
        message_matches(m, ghost_record@),
{
    let ghost record = ghost_record@;
    let ghost map = record_map(record);
    let id: String = match slots.id {
        Some((x, y)) => text.substring_char(x, y).to_owned(),
        None => {
            proof {
                reveal_strlit("0");
            }
            String::from_str("0")
        },
    };
    let from: i64 = match slots.from {
        Some((x, y)) => match parse_decimal_range(s, x, y, true, i64::MIN as i128, i64::MAX as i128) {
            Some(v) => v as i64,
            None => -1,
        },
        None => 0,
    };
    let bytes = subject_bytes_of(text, slots.subject);
    assert(slot_text(s@, slots.subject) == (if map.dom().contains(KEY_SUBJECT as int) {
        map[KEY_SUBJECT as int]
    } else {
        Seq::<char>::empty()
    }));
    let decoded = base64_decode(bytes.as_slice());
    let subject = utf8_lossy(decoded.as_slice());
    assert(id@ == message_id(record));
    assert(from as int == message_from(record));
    assert(subject@ == message_subject(record));
    GDMessage { id, from, subject }
}

/// The chars of `s` are the marker of an empty inbox.
fn is_no_messages(s: &Vec<char>) -> (res: bool)
    ensures
        res == (s@ == no_messages_marker()),
{
    let res = s.len() == 2 && s[0] == '-' && s[1] == '2';
    assert(res ==> s@ =~= no_messages_marker());
    res
}

/// Whether every subject that `parse_gj_messages_response` would decode is
/// ASCII, which the base64 decoder needs.
pub fn listing_decodable(meow: &String) -> (res: bool)
    ensures
        res == messages_decodable(meow@),
{
    let s = chars_of(meow.as_str());
    if is_no_messages(&s) {
        return true;
    }
    let ghost records = listing_records(s@);
    let ranges = split_range(&s, 0, s.len(), '|');
    assert(s@.subrange(0, s@.len() as int) =~= s@);
    let mut j: usize = 0;
    while j < ranges.len()
        invariant
            s@ == meow@,
            s@ != no_messages_marker(),
            records == listing_records(s@),
            ranges@.len() == records.len(),
            forall|i: int|
                #![trigger ranges@[i]]
                0 <= i < ranges@.len() ==> {
                    &&& ranges@[i].0 <= ranges@[i].1 <= s@.len()
                    &&& s@.subrange(ranges@[i].0 as int, ranges@[i].1 as int) == records[i]
                },
            j <= ranges@.len(),
            forall|i: int| 0 <= i < j ==> record_valid(#[trigger] records[i]),
            forall|i: int| 0 <= i < j ==> is_ascii_bytes(#[trigger] subject_bytes(records[i])),
        decreases ranges@.len() - j,
    {
        let (a, b) = ranges[j];
        match scan_record(&s, a, b) {
            Err(()) => {
                assert forall|k: int|
                    0 <= k < records.len() && (forall|i: int|
                        0 <= i <= k ==> record_valid(#[trigger] records[i])) implies is_ascii_bytes(
                    #[trigger] subject_bytes(records[k]),
                ) by {
                    if k >= j {
                        assert(!record_valid(records[j as int]));
                    }
                }
                return true;
            },
            Ok(slots) => {
                let bytes = subject_bytes_of(meow.as_str(), slots.subject);
                let ghost map = record_map(records[j as int]);
                assert(slot_text(s@, slots.subject) == (if map.dom().contains(KEY_SUBJECT as int) {
                    map[KEY_SUBJECT as int]
                } else {
                    Seq::<char>::empty()
                }));
                assert(bytes@ == subject_bytes(records[j as int]));
                assert(record_valid(records[j as int]));
                let mut k: usize = 0;
                #[verifier::loop_isolation(false)]
                while k < bytes.len()
                    invariant
                        k <= bytes@.len(),
                        forall|q: int| 0 <= q < k ==> bytes@[q] < 128,
                    decreases bytes@.len() - k,
                {
                    if bytes[k] >= 128 {
                        assert(!is_ascii_bytes(subject_bytes(records[j as int])));
                        return false;
                    }
                    k = k + 1;
                }
            },
        }
        j = j + 1;
    }
    true
}

/// Reads an inbox listing: messages separated by `|`, each a run of
/// `key:value` fields separated by `:`. Key 1 is the message id, key 2 the
/// sender's account id and key 4 the base64 subject, cut at its first zero
/// byte. `-2` is an empty inbox; a key that does not read as an `i32` makes
/// the whole listing fail with `ParseIntError`.
pub fn parse_gj_messages_response(meow: String) -> (res: Result<Vec<GDMessage>, GenericError>)
    requires
        messages_decodable(meow@),
    ensures
        meow@ == no_messages_marker() ==> (res matches Ok(v) && v@.len() == 0),
        meow@ != no_messages_marker() ==> {
            let records = listing_records(meow@);
            &&& res is Err <==> exists|j: int| 0 <= j < records.len() && !record_valid(
                #[trigger] records[j],
            )
            &&& res is Err ==> res == Err::<Vec<GDMessage>, GenericError>(
                GenericError::ParseIntError,
            )
            &&& res matches Ok(v) ==> (v@.len() == records.len() && forall|i: int|
                0 <= i < v@.len() ==> message_matches(#[trigger] v@[i], records[i]))
        },
{
    let s = chars_of(meow.as_str());
    if is_no_messages(&s) {
        return Ok(Vec::new());
    }
    let ghost records = listing_records(s@);
    let ranges = split_range(&s, 0, s.len(), '|');
    assert(s@.subrange(0, s@.len() as int) =~= s@);
    let mut messages: Vec<GDMessage> = Vec::new();
    let mut j: usize = 0;
    while j < ranges.len()
        invariant
            s@ == meow@,
            s@ != no_messages_marker(),
            messages_decodable(meow@),
            records == listing_records(s@),
            ranges@.len() == records.len(),
            forall|i: int|
                #![trigger ranges@[i]]
                0 <= i < ranges@.len() ==> {
                    &&& ranges@[i].0 <= ranges@[i].1 <= s@.len()
                    &&& s@.subrange(ranges@[i].0 as int, ranges@[i].1 as int) == records[i]
                },
            j <= ranges@.len(),
            messages@.len() == j,
            forall|i: int| 0 <= i < j ==> record_valid(#[trigger] records[i]),
            forall|i: int| 0 <= i < j ==> message_matches(#[trigger] messages@[i], records[i]),
        decreases ranges@.len() - j,
    {
        let (a, b) = ranges[j];
        match scan_record(&s, a, b) {
            Err(()) => {
                assert(!record_valid(records[j as int]));
                return Err(GenericError::ParseIntError);
            },
            Ok(slots) => {
                assert(forall|i: int| 0 <= i <= j ==> record_valid(#[trigger] records[i]));
                assert(is_ascii_bytes(subject_bytes(records[j as int])));
                let m = build_message(meow.as_str(), &s, slots, Ghost(records[j as int]));
                messages.push(m);
            },
        }
        j = j + 1;
    }
    Ok(messages)
}

/// The server used when no list of proxies is configured.
pub open spec fn default_server_url() -> Seq<char> {
    "https://www.boomlings.com"@
}

/// The Geometry Dash server: the configured override, else the official one.
pub fn default_server(server_override: Option<String>) -> (server: String)
    ensures
        server_override matches Some(o) ==> server@ == o@,
        server_override is None ==> server@ == default_server_url(),
{
    match server_override {
        Some(o) => o,
        None => String::from_str("https://www.boomlings.com"),
    }
}

/// The server to send the next request to: `default_server` when no proxy
/// list is configured, else a proxy of the list picked at random.
pub fn proxy_list(default_server: String, servers: Option<Vec<String>>) -> (server: String)
    requires
        servers matches Some(list) ==> list@.len() > 0,
    ensures
        servers is None ==> server@ == default_server@,
        servers matches Some(list) ==> exists|i: int|
            0 <= i < list@.len() && server@ == (#[trigger] list@[i])@,
{
    match servers {
        None => default_server,
        Some(list) => {
            let num = random_below(list.len());
            let chosen = list[num].clone();
            assert(chosen@ == list@[num as int]@);
            chosen
        },
    }
}

} // verus!
