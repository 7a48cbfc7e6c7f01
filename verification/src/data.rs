//! The test event that every broker run publishes: a Snowplow tracker
//! payload whose `cx` field carries, in Base64, a batch of fake email
//! records serialised as JSON.
use fake::Fake;
use vstd::prelude::*;
use vstd::string::*;
use vstd::utf8::*;

verus! {

/// Everything of the payload template up to the `cx` value. The template
/// puts no quotes around that value: the Base64 text stands between
/// `"cx":` and `,"vp":`.
pub const EVENT_PREFIX: &'static str = r###"{"schema":"iglu:com.snowplowanalytics.snowplow/payload_data/jsonschema/1-0-4","data":[{"e":"pv","url":"/docs/open-source-quick-start/quick-start-installation-guide-on-aws/send-test-events-to-your-pipeline/","page":"Send test events to your pipeline - Snowplow Docs","refr":"https://docs.snowplow.io/","tv":"js-2.17.2","tna":"spExample","aid":"docs-example","p":"web","tz":"Europe/London","lang":"en-GB","cs":"UTF-8","res":"3440x1440","cd":"24","cookie":"1","eid":"4e35e8c6-03c4-4c17-8202-80de5bd9d953","dtm":"1626182778191","cx":"###;

/// Everything of the payload template after the `cx` value.
pub const EVENT_SUFFIX: &'static str = r###","vp":"863x1299","ds":"848x5315","vid":"3","sid":"87c18fc8-2055-4ec4-8ad6-fff64081c2f3","duid":"5f06dbb0-a893-472b-b61a-7844032ab3d6","stm":"1626182778194"}]}"###;

/// The longest record that a fake id can give: `{"id":"` and `"}` around
/// at most 19 characters.
pub const MAX_RECORD_LEN: usize = 28;

// ---------------------------------------------------------------------------
// Fake ids

pub open spec fn is_ascii_alphanumeric(c: char) -> bool {
    ||| ('A' <= c && c <= 'Z')
    ||| ('a' <= c && c <= 'z')
    ||| ('0' <= c && c <= '9')
}

/// What every id that the generator hands out looks like: 5 to 19
/// characters, each an ASCII letter or digit.
pub open spec fn is_fake_id(id: Seq<char>) -> bool {
    &&& 5 <= id.len() < 20
    &&& forall|i: int| 0 <= i < id.len() ==> is_ascii_alphanumeric(#[trigger] id[i])
}

/// Calls `fake::Faker.fake::<String>()`, which is what the `Dummy` derive of
/// a record with one `String` field calls for that field. The crate's source
/// draws a length uniformly from `5..20` and then that many characters from
/// rand's `Alphanumeric` distribution (`A`-`Z`, `a`-`z`, `0`-`9`). The
/// contract states only that shape: which id comes out is left to chance.
#[verifier::external_body]
fn fake_id() -> (id: String)
    ensures
        is_fake_id(id@),
{
    fake::Faker.fake::<String>()
}

// ---------------------------------------------------------------------------
// JSON string literals

#[verifier::external_type_specification]
#[verifier::external_body]
pub struct ExJsonError(serde_json::Error);

/// A lower-case hexadecimal digit.
pub open spec fn hex_digit(d: nat) -> char {
    if d < 10 {
        crate::decimal::digit_char(d)
    } else if d == 10 {
        'a'
    } else if d == 11 {
        'b'
    } else if d == 12 {
        'c'
    } else if d == 13 {
        'd'
    } else if d == 14 {
        'e'
    } else {
        'f'
    }
}

/// How one character stands inside a JSON string: `"` and `\` behind a
/// backslash; backspace, tab, line feed, form feed and carriage return as
/// `\b`, `\t`, `\n`, `\f`, `\r`; any other character below U+0020 as
/// `\u00` and two lower-case hex digits; every other character as itself.
pub open spec fn json_escape_char(c: char) -> Seq<char> {
    if c == '"' {
        seq!['\\', '"']
    } else if c == '\\' {
        seq!['\\', '\\']
    } else if c == '\u{8}' {
        seq!['\\', 'b']
    } else if c == '\t' {
        seq!['\\', 't']
    } else if c == '\n' {
        seq!['\\', 'n']
    } else if c == '\u{c}' {
        seq!['\\', 'f']
    } else if c == '\r' {
        seq!['\\', 'r']
    } else if (c as u32) < 0x20 {
        seq!['\\', 'u', '0', '0', hex_digit((c as u32 / 16) as nat), hex_digit((c as u32 % 16) as nat)]
    } else {
        seq![c]
    }
}

/// The characters of `text`, each escaped as JSON requires.
pub open spec fn json_escaped(text: Seq<char>) -> Seq<char>
    decreases text.len(),
{
    if text.len() == 0 {
        seq![]
    } else {
        json_escaped(text.drop_last()) + json_escape_char(text.last())
    }
}

/// A string value written as JSON: its escaped characters between quotes.
pub open spec fn json_string_literal(text: Seq<char>) -> Seq<char> {
    seq!['"'] + json_escaped(text) + seq!['"']
}

/// Text in which JSON escapes nothing: no quote, no backslash and no
/// control character below U+0020.
pub open spec fn needs_no_json_escape(text: Seq<char>) -> bool {
    forall|i: int|
        0 <= i < text.len() ==> {
            &&& #[trigger] text[i] != '"'
            &&& text[i] != '\\'
            &&& text[i] as u32 >= 0x20
        }
}

/// Text that needs no escape stands in JSON as itself between quotes.
pub proof fn lemma_plain_json_string(text: Seq<char>)
    requires
        needs_no_json_escape(text),
    ensures
        json_string_literal(text) == seq!['"'] + text + seq!['"'],
{
    lemma_plain_json_escaped(text);
}

proof fn lemma_plain_json_escaped(text: Seq<char>)
    requires
        needs_no_json_escape(text),
    ensures
        json_escaped(text) == text,
    decreases text.len(),
{
    if text.len() > 0 {
        let init = text.drop_last();
        assert forall|i: int| 0 <= i < init.len() implies {
            &&& #[trigger] init[i] != '"'
            &&& init[i] != '\\'
            &&& init[i] as u32 >= 0x20
        } by {
            assert(init[i] == text[i]);
        }
        lemma_plain_json_escaped(init);
        let c = text.last();
        assert(c == text[text.len() - 1]);
        assert(c != '"' && c != '\\' && c as u32 >= 0x20);
        assert(c != '\u{8}' && c != '\t' && c != '\n' && c != '\u{c}' && c != '\r');
        assert(json_escape_char(c) == seq![c]);
        assert(text =~= init + seq![c]);
    }
}

/// Calls `serde_json::to_string` on a `str`. The crate's source writes the
/// string into a `Vec<u8>`, which cannot fail, so the result is always
/// `Ok`: a quote, then each character as its escape table (`ESCAPE`) and
/// `write_char_escape` give it, then a quote; `json_string_literal` states
/// that table.
#[verifier::external_body]
fn json_quote(text: &str) -> (quoted: Result<String, serde_json::Error>)
    ensures
        quoted is Ok,
        quoted matches Ok(q) ==> q@ == json_string_literal(text@),
{
    serde_json::to_string(text)
}

// ---------------------------------------------------------------------------
// Base64

/// The standard Base64 encoding (RFC 4648 alphabet, `=` padding) that
/// `base64::encode` gives for a byte string.
pub uninterp spec fn base64_standard(data: Seq<u8>) -> Seq<char>;

/// The encoder computes its output length, four characters per started
/// group of three bytes, with checked arithmetic and panics when it
/// overflows; this says that it does not.
pub open spec fn base64_len_fits(n: nat) -> bool {
    (n + 2) / 3 * 4 <= usize::MAX
}

/// A character of the standard Base64 alphabet: `A`-`Z`, `a`-`z`, `0`-`9`,
/// `+` and `/`.
pub open spec fn is_base64_char(c: char) -> bool {
    is_ascii_alphanumeric(c) || c == '+' || c == '/'
}

/// How many `=` end the encoding of `n` bytes: none for a whole number of
/// three-byte groups, two after one leftover byte, one after two.
pub open spec fn base64_padding(n: nat) -> nat {
    if n % 3 == 0 {
        0
    } else {
        (3 - n % 3) as nat
    }
}

/// The shape of the padded encoding of `n` bytes: four characters per
/// started group of three bytes, alphabet characters, then the padding.
pub open spec fn is_padded_base64(text: Seq<char>, n: nat) -> bool {
    &&& text.len() == (n + 2) / 3 * 4
    &&& forall|i: int|
        0 <= i < text.len() ==> if i < text.len() - base64_padding(n) {
            is_base64_char(#[trigger] text[i])
        } else {
            text[i] == '='
        }
}

/// Calls `base64::encode` (the `STANDARD` engine with padding). The result
/// is named `base64_standard`. The crate's source sizes the output with
/// `encoded_len` (four bytes per started group of three), writes alphabet
/// characters and then `(4 - written % 4) % 4` padding bytes `=`; that
/// shape is stated. It panics when the output length overflows `usize`;
/// `requires` leaves those inputs out.
#[verifier::external_body]
#[allow(deprecated)]
fn base64_encode(data: &[u8]) -> (encoded: String)
    requires
        base64_len_fits(data@.len() as nat),
    ensures
        encoded@ == base64_standard(data@),
        is_padded_base64(encoded@, data@.len() as nat),
{
    base64::encode(data)
}

// ---------------------------------------------------------------------------
// Records and the payload

/// One email record serialised as JSON: `{"id":<id as a JSON string>}`.
pub open spec fn email_json(id: Seq<char>) -> Seq<char> {
    seq!['{', '"', 'i', 'd', '"', ':'] + json_string_literal(id) + seq!['}']
}

/// The records of `ids`, one after another, with nothing between them.
pub open spec fn emails_json(ids: Seq<Seq<char>>) -> Seq<char>
    decreases ids.len(),
{
    if ids.len() == 0 {
        seq![]
    } else {
        emails_json(ids.drop_last()) + email_json(ids.last())
    }
}

/// The record of an id that needs no escape: `{"id":"<id>"}`.
pub open spec fn plain_email_json(id: Seq<char>) -> Seq<char> {
    seq!['{', '"', 'i', 'd', '"', ':', '"'] + id + seq!['"', '}']
}

/// The plain records of `ids`, one after another.
pub open spec fn plain_emails_json(ids: Seq<Seq<char>>) -> Seq<char>
    decreases ids.len(),
{
    if ids.len() == 0 {
        seq![]
    } else {
        plain_emails_json(ids.drop_last()) + plain_email_json(ids.last())
    }
}

/// The text of each id.
pub open spec fn id_texts(ids: Seq<String>) -> Seq<Seq<char>> {
    ids.map_values(|id: String| id@)
}

/// The payload for a batch of ids: the template with the UTF-8 bytes of
/// the concatenated records, Base64-encoded, as its `cx` value.
pub open spec fn event_payload(ids: Seq<Seq<char>>) -> Seq<char> {
    EVENT_PREFIX@ + base64_standard(encode_utf8(emails_json(ids))) + EVENT_SUFFIX@
}

/// Whether the encoder can take the records of `ids` without overflowing.
pub open spec fn payload_fits(ids: Seq<Seq<char>>) -> bool {
    base64_len_fits(encode_utf8(emails_json(ids)).len())
}

/// Serialises one email record.
pub fn email_record(id: &str) -> (record: String)
    ensures
        record@ == email_json(id@),
        needs_no_json_escape(id@) ==> record@ == plain_email_json(id@),
{
    let quoted = match json_quote(id) {
        Ok(q) => q,
        Err(_) => unreached(),
    };
    proof {
        reveal_strlit("{\"id\":");
        reveal_strlit("}");
    }
    let mut record = "{\"id\":".to_owned();
    record.append(quoted.as_str());
    record.append("}");
    proof {
        if needs_no_json_escape(id@) {
            lemma_plain_json_string(id@);
            assert(record@ =~= seq!['{', '"', 'i', 'd', '"', ':', '"'] + id@ + seq!['"', '}']);
        }
    }
    record
}

/// A Pulsar message body `{"data":<text as a JSON string>}`.
pub open spec fn test_data_json_spec(data: Seq<char>) -> Seq<char> {
    seq!['{', '"', 'd', 'a', 't', 'a', '"', ':'] + json_string_literal(data) + seq!['}']
}

/// Serialises the body of a Pulsar message that carries `data`.
pub fn test_data_json(data: &str) -> (body: String)
    ensures
        body@ == test_data_json_spec(data@),
        needs_no_json_escape(data@) ==> body@ == seq!['{', '"', 'd', 'a', 't', 'a', '"', ':', '"']
            + data@ + seq!['"', '}'],
{
    let quoted = match json_quote(data) {
        Ok(q) => q,
        Err(_) => unreached(),
    };
    proof {
        reveal_strlit("{\"data\":");
        reveal_strlit("}");
    }
    let mut body = "{\"data\":".to_owned();
    body.append(quoted.as_str());
    body.append("}");
    proof {
        if needs_no_json_escape(data@) {
            lemma_plain_json_string(data@);
            assert(body@ =~= seq!['{', '"', 'd', 'a', 't', 'a', '"', ':', '"'] + data@ + seq![
                '"',
                '}',
            ]);
        }
    }
    body
}

proof fn lemma_fake_id_plain(id: Seq<char>)
    requires
        is_fake_id(id),
    ensures
        needs_no_json_escape(id),
        is_ascii_chars(id),
{
    assert forall|i: int| 0 <= i < id.len() implies {
        &&& #[trigger] id[i] != '"'
        &&& id[i] != '\\'
        &&& id[i] as u32 >= 0x20
    } by {
        assert(is_ascii_alphanumeric(id[i]));
    }
    assert forall|i: int| 0 <= i < id.len() implies '\0' <= #[trigger] id[i] <= '\u{7f}' by {
        assert(is_ascii_alphanumeric(id[i]));
    }
}

/// Concatenates the records of `ids`. When every id is a fake id, the text
/// is ASCII and at most `MAX_RECORD_LEN` characters per id.
fn concat_records(ids: &Vec<String>) -> (events: String)
    ensures
        events@ == emails_json(id_texts(ids@)),
        (forall|i: int| 0 <= i < ids@.len() ==> is_fake_id(#[trigger] ids@[i]@)) ==> {
            &&& is_ascii_chars(events@)
            &&& events@.len() <= MAX_RECORD_LEN * ids@.len()
            &&& events@ == plain_emails_json(id_texts(ids@))
        },
{
    let ghost texts = id_texts(ids@);
    let ghost all_fake = forall|i: int| 0 <= i < ids@.len() ==> is_fake_id(#[trigger] ids@[i]@);
    let mut events = String::new();
    let mut i: usize = 0;
    while i < ids.len()
        invariant
            i <= ids.len(),
            texts == id_texts(ids@),
            all_fake == (forall|i: int| 0 <= i < ids@.len() ==> is_fake_id(#[trigger] ids@[i]@)),
            events@ == emails_json(texts.take(i as int)),
            all_fake ==> is_ascii_chars(events@),
            all_fake ==> events@.len() <= MAX_RECORD_LEN * i,
            all_fake ==> events@ == plain_emails_json(texts.take(i as int)),
        decreases ids.len() - i,
    {
        let record = email_record(ids[i].as_str());
        let ghost before = events@;
        events.append(record.as_str());
        proof {
            assert(texts.take(i + 1).drop_last() =~= texts.take(i as int));
            assert(texts.take(i + 1).last() == ids@[i as int]@);
            if all_fake {
                let id = ids@[i as int]@;
                assert(is_fake_id(id));
                lemma_fake_id_plain(id);
                assert(record@ == plain_email_json(id));
                assert(is_ascii_chars(record@)) by {
                    assert forall|k: int| 0 <= k < record@.len() implies '\0' <= #[trigger] record@[k]
                        <= '\u{7f}' by {
                        if 7 <= k < 7 + id.len() {
                            assert(record@[k] == id[k - 7]);
                        }
                    }
                }
                assert(is_ascii_chars(events@)) by {
                    assert forall|k: int| 0 <= k < events@.len() implies '\0' <= #[trigger] events@[k]
                        <= '\u{7f}' by {
                        if k < before.len() {
                            assert(events@[k] == before[k]);
                        } else {
                            assert(events@[k] == record@[k - before.len()]);
                        }
                    }
                }
            }
        }
        i += 1;
    }
    proof {
        assert(texts.take(ids.len() as int) =~= texts);
    }
    events
}

proof fn lemma_base64_len_fits_mono(n: nat, m: nat)
    requires
        n <= m,
        base64_len_fits(m),
    ensures
        base64_len_fits(n),
{
    assert((n + 2) / 3 <= (m + 2) / 3) by (nonlinear_arith)
        requires
            n <= m,
    ;
}

/// Wraps already concatenated records into the payload template.
fn wrap_records(events: &str) -> (payload: String)
    requires
        base64_len_fits(encode_utf8(events@).len()),
    ensures
        payload@ == EVENT_PREFIX@ + base64_standard(encode_utf8(events@)) + EVENT_SUFFIX@,
        is_padded_base64(base64_standard(encode_utf8(events@)), encode_utf8(events@).len()),
{
    let bytes = events.as_bytes();
    let encoded = base64_encode(bytes);
    let mut payload = EVENT_PREFIX.to_owned();
    payload.append(encoded.as_str());
    payload.append(EVENT_SUFFIX);
    payload
}

/// The payload for the given ids, or `None` when the encoded records would
/// be longer than the encoder can count (where the encoder panics).
pub fn event_from_ids(ids: &Vec<String>) -> (payload: Option<String>)
    ensures
        payload is Some <==> payload_fits(id_texts(ids@)),
        payload matches Some(p) ==> p@ == event_payload(id_texts(ids@)),
        payload is Some ==> is_padded_base64(
            base64_standard(encode_utf8(emails_json(id_texts(ids@)))),
            encode_utf8(emails_json(id_texts(ids@))).len(),
        ),
{
    let events = concat_records(ids);
    let n = events.as_str().as_bytes().len();
    let groups: usize = if n % 3 == 0 {
        n / 3
    } else {
        n / 3 + 1
    };
    assert(groups == (n + 2) / 3);
    if groups <= usize::MAX / 4 {
        assert(base64_len_fits(n as nat));
        Some(wrap_records(events.as_str()))
    } else {
        None
    }
}

/// Whether `count` records of fake ids are sure to fit the encoder.
pub open spec fn count_fits(count: nat) -> bool {
    base64_len_fits(MAX_RECORD_LEN as nat * count)
}

/// Tests `count_fits` at run time.
pub fn event_count_fits(count: usize) -> (fits: bool)
    ensures
        fits == count_fits(count as nat),
{
    if count > usize::MAX / MAX_RECORD_LEN {
        assert(MAX_RECORD_LEN * count > usize::MAX) by (nonlinear_arith)
            requires
                count > usize::MAX / MAX_RECORD_LEN,
                MAX_RECORD_LEN == 28,
        ;
        assert(!count_fits(count as nat)) by (nonlinear_arith)
            requires
                MAX_RECORD_LEN * count > usize::MAX,
                MAX_RECORD_LEN == 28,
        ;
        false
    } else {
        let n = MAX_RECORD_LEN * count;
        let groups: usize = if n % 3 == 0 {
            n / 3
        } else {
            n / 3 + 1
        };
        assert(groups == (n + 2) / 3);
        groups <= usize::MAX / 4
    }
}

/// A payload carrying `count` freshly generated fake email records.
/// Which ids come out is left to chance; the result is the payload of some
/// `count` fake ids.
pub fn event(count: usize) -> (payload: String)
    requires
        count_fits(count as nat),
    ensures
        exists|ids: Seq<Seq<char>>|
            #![trigger event_payload(ids)]
            {
                &&& ids.len() == count
                &&& forall|i: int| 0 <= i < ids.len() ==> is_fake_id(#[trigger] ids[i])
                &&& payload@ == event_payload(ids)
                &&& payload@ == EVENT_PREFIX@ + base64_standard(encode_utf8(plain_emails_json(ids)))
                    + EVENT_SUFFIX@
                &&& is_padded_base64(
                    base64_standard(encode_utf8(plain_emails_json(ids))),
                    encode_utf8(plain_emails_json(ids)).len(),
                )
            },
{
    let mut ids: Vec<String> = Vec::new();
    let mut i: usize = 0;
    while i < count
        invariant
            i <= count,
            ids@.len() == i,
            forall|k: int| 0 <= k < ids@.len() ==> is_fake_id(#[trigger] ids@[k]@),
        decreases count - i,
    {
        ids.push(fake_id());
        i += 1;
    }
    let events = concat_records(&ids);
    proof {
        is_ascii_chars_encode_utf8(events@);
        lemma_base64_len_fits_mono(encode_utf8(events@).len(), MAX_RECORD_LEN as nat * count as nat);
    }
    let payload = wrap_records(events.as_str());
    proof {
        let texts = id_texts(ids@);
        assert forall|k: int| 0 <= k < texts.len() implies is_fake_id(#[trigger] texts[k]) by {
            assert(texts[k] == ids@[k]@);
        }
        assert(payload@ == event_payload(texts));
    }
    payload
}

} // verus!
