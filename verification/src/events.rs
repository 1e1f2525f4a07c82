//! The structured event log consumed by off-chain indexers: one text line,
//! `EVENT_JSON:` followed by a JSON object whose field order and
//! omission-when-absent rules are fixed. The serialization is implemented
//! here character by character so its exact shape is part of the contract.
use vstd::prelude::*;

use crate::internal::lemma_ids_index;

verus! {

/// Which kind of event is being logged.
#[non_exhaustive]
pub enum EventLogVariant {
    NftMint(Vec<NftMintLog>),
}

/// One emitted event: the standard's name and version, and the event data.
pub struct EventLog {
    pub standard: String,
    pub version: String,
    pub event: EventLogVariant,
}

/// One mint entry: the receiving owner, the token ids minted for it, and an
/// optional memo (omitted from the serialized form when absent).
pub struct NftMintLog {
    pub owner_id: String,
    pub token_ids: Vec<String>,
    pub memo: Option<String>,
}

// ---------------------------------------------------------------------------
// The serialized shape, as specification
// ---------------------------------------------------------------------------

/// Lowercase hexadecimal digit of a value below 16.
pub open spec fn spec_hex_digit(n: int) -> char {
    if n < 10 {
        (48 + n) as u8 as char
    } else {
        (87 + n) as u8 as char
    }
}

/// How one character appears inside a JSON string literal: quote, backslash
/// and the named control characters get a two-character escape, any other
/// control character a `\u00..` escape, and everything else stands as is.
pub open spec fn json_escape_char(c: char) -> Seq<char> {
    if c == '"' {
        seq!['\\', '"']
    } else if c == '\\' {
        seq!['\\', '\\']
    } else if c == '\u{8}' {
        seq!['\\', 'b']
    } else if c == '\t' {
        seq!['\\', 't']
    } else if c == '\n' {
        seq!['\\', 'n']
    } else if c == '\u{c}' {
        seq!['\\', 'f']
    } else if c == '\r' {
        seq!['\\', 'r']
    } else if (c as u32) < 32 {
        seq!['\\', 'u', '0', '0', spec_hex_digit(c as u32 as int / 16), spec_hex_digit(
            c as u32 as int % 16,
        )]
    } else {
        seq![c]
    }
}

/// A whole character sequence escaped for JSON.
pub open spec fn json_escape(s: Seq<char>) -> Seq<char>
    decreases s.len(),
{
    if s.len() == 0 {
        Seq::empty()
    } else {
        json_escape(s.drop_last()) + json_escape_char(s.last())
    }
}

/// A JSON string literal: the escaped characters between double quotes.
pub open spec fn json_string(s: Seq<char>) -> Seq<char> {
    seq!['"'] + json_escape(s) + seq!['"']
}

/// A comma-separated list of JSON string literals.
pub open spec fn spec_id_list_json(ids: Seq<Seq<char>>) -> Seq<char>
    decreases ids.len(),
{
    if ids.len() == 0 {
        Seq::empty()
    } else if ids.len() == 1 {
        json_string(ids[0])
    } else {
        spec_id_list_json(ids.drop_last()) + seq![','] + json_string(ids.last())
    }
}

/// The memo field, omitted entirely when absent.
pub open spec fn spec_memo_json(memo: Option<String>) -> Seq<char> {
    match memo {
        Option::None => Seq::empty(),
        Option::Some(m) => ",\"memo\":"@ + json_string(m@),
    }
}

/// One mint entry as a JSON object, fields in fixed order.
pub open spec fn spec_mint_log_json(l: NftMintLog) -> Seq<char> {
    "{\"owner_id\":"@ + json_string(l.owner_id@) + ",\"token_ids\":["@ + spec_id_list_json(
        l.token_ids.deep_view(),
    ) + "]"@ + spec_memo_json(l.memo) + "}"@
}

/// The mint entries as a comma-separated JSON array body.
pub open spec fn spec_mint_data_json(logs: Seq<NftMintLog>) -> Seq<char>
    decreases logs.len(),
{
    if logs.len() == 0 {
        Seq::empty()
    } else if logs.len() == 1 {
        spec_mint_log_json(logs[0])
    } else {
        spec_mint_data_json(logs.drop_last()) + seq![','] + spec_mint_log_json(logs.last())
    }
}

/// The whole emitted line for an event.
pub open spec fn spec_event_line(e: EventLog) -> Seq<char> {
    match e.event {
        EventLogVariant::NftMint(logs) => "EVENT_JSON:"@ + "{\"standard\":"@ + json_string(
            e.standard@,
        ) + ",\"version\":"@ + json_string(e.version@) + ",\"event\":\"nft_mint\",\"data\":["@
            + spec_mint_data_json(logs@) + "]"@ + "}"@,
    }
}

// ---------------------------------------------------------------------------
// The serializer
// ---------------------------------------------------------------------------

/// Relies on `String`'s `FromIterator` over `char`: the collected string
/// holds exactly the given characters in order.
#[verifier::external_body]
fn string_from_chars(chars: Vec<char>) -> (r: String)
    ensures
        r@ == chars@,
{
    String::from_iter(chars)
}

fn hex_digit(n: u8) -> (c: char)
    requires
        n < 16,
    ensures
        c == spec_hex_digit(n as int),
{
    if n < 10 {
        (48 + n) as char
    } else {
        (87 + n) as char
    }
}

fn push_str_chars(out: &mut Vec<char>, s: &str)
    ensures
        final(out)@ == old(out)@ + s@,
{
    let ghost base = out@;
    let n = s.unicode_len();
    let mut i: usize = 0;
    proof {
        assert(base + s@.take(0) =~= base);
    }
    while i < n
        invariant
            i <= n,
            n == s@.len(),
            out@ == base + s@.take(i as int),
        decreases n - i,
    {
        let c = s.get_char(i);
        out.push(c);
        proof {
            assert(base + s@.take(i as int + 1) =~= (base + s@.take(i as int)).push(s@[i as int]));
        }
        i = i + 1;
    }
    proof {
        assert(base + s@.take(s@.len() as int) =~= base + s@);
    }
}

fn push_json_escaped(out: &mut Vec<char>, s: &str)
    ensures
        final(out)@ == old(out)@ + json_escape(s@),
{
    let ghost base = out@;
    let n = s.unicode_len();
    let mut i: usize = 0;
    proof {
        assert(json_escape(s@.take(0)) =~= Seq::<char>::empty());
        assert(base + json_escape(s@.take(0)) =~= base);
    }
    while i < n
        invariant
            i <= n,
            n == s@.len(),
            out@ == base + json_escape(s@.take(i as int)),
        decreases n - i,
    {
        let ghost pre = out@;
        let c = s.get_char(i);
        if c == '"' {
            out.push('\\');
            out.push('"');
        } else if c == '\\' {
            out.push('\\');
            out.push('\\');
        } else if c == '\u{8}' {
            out.push('\\');
            out.push('b');
        } else if c == '\t' {
            out.push('\\');
            out.push('t');
        } else if c == '\n' {
            out.push('\\');
            out.push('n');
        } else if c == '\u{c}' {
            out.push('\\');
            out.push('f');
        } else if c == '\r' {
            out.push('\\');
            out.push('r');
        } else if (c as u32) < 32 {
            let v = c as u32;
            out.push('\\');
            out.push('u');
            out.push('0');
            out.push('0');
            out.push(hex_digit((v / 16) as u8));
            out.push(hex_digit((v % 16) as u8));
        } else {
            out.push(c);
        }
        proof {
            assert(out@ =~= pre + json_escape_char(s@[i as int]));
            assert(s@.take(i as int + 1).drop_last() =~= s@.take(i as int));
            assert(json_escape(s@.take(i as int + 1)) == json_escape(s@.take(i as int))
                + json_escape_char(s@[i as int]));
            assert(base + json_escape(s@.take(i as int + 1)) =~= (base + json_escape(s@.take(
                i as int,
            ))) + json_escape_char(s@[i as int]));
        }
        i = i + 1;
    }
    proof {
        assert(s@.take(s@.len() as int) =~= s@);
    }
}

fn push_json_string(out: &mut Vec<char>, s: &str)
    ensures
        final(out)@ == old(out)@ + json_string(s@),
{
    let ghost base = out@;
    out.push('"');
    proof {
        assert(out@ =~= base + seq!['"']);
    }
    push_json_escaped(out, s);
    out.push('"');
    proof {
        assert(out@ =~= base + json_string(s@));
    }
}

fn push_mint_log(out: &mut Vec<char>, l: &NftMintLog)
    ensures
        final(out)@ == old(out)@ + spec_mint_log_json(*l),
{
    let ghost base = out@;
    push_str_chars(out, "{\"owner_id\":");
    push_json_string(out, l.owner_id.as_str());
    push_str_chars(out, ",\"token_ids\":[");
    let ghost list_base = out@;
    let mut i: usize = 0;
    proof {
        assert(list_base + spec_id_list_json(l.token_ids.deep_view().take(0)) =~= list_base);
    }
    while i < l.token_ids.len()
        invariant
            i <= l.token_ids.len(),
            l.token_ids.deep_view().len() == l.token_ids@.len(),
            out@ == list_base + spec_id_list_json(l.token_ids.deep_view().take(i as int)),
        decreases l.token_ids.len() - i,
    {
        let ghost ids = l.token_ids.deep_view();
        proof {
            lemma_ids_index(l.token_ids, i as int);
        }
        if i > 0 {
            out.push(',');
        }
        push_json_string(out, l.token_ids[i].as_str());
        proof {
            if i == 0 {
                assert(ids.take(1)[0] == ids[0]);
                assert(spec_id_list_json(ids.take(1)) == json_string(ids[0]));
                assert(list_base + spec_id_list_json(ids.take(0)) =~= list_base);
                assert(out@ =~= list_base + spec_id_list_json(ids.take(1)));
            } else {
                assert(ids.take(i as int + 1).drop_last() =~= ids.take(i as int));
                assert(ids.take(i as int + 1).last() == ids[i as int]);
                assert(spec_id_list_json(ids.take(i as int + 1)) == spec_id_list_json(ids.take(
                    i as int,
                )) + seq![','] + json_string(ids[i as int]));
                assert(out@ =~= list_base + spec_id_list_json(ids.take(i as int + 1)));
            }
        }
        i = i + 1;
    }
    proof {
        assert(l.token_ids.deep_view().take(l.token_ids@.len() as int) =~= l.token_ids.deep_view());
    }
    push_str_chars(out, "]");
    let ghost before_memo = out@;
    match &l.memo {
        Option::None => {
            proof {
                assert(before_memo + spec_memo_json(l.memo) =~= before_memo);
            }
        },
        Option::Some(m) => {
            push_str_chars(out, ",\"memo\":");
            push_json_string(out, m.as_str());
            proof {
                assert(out@ =~= before_memo + spec_memo_json(l.memo));
            }
        },
    }
    push_str_chars(out, "}");
    proof {
        assert(out@ =~= base + spec_mint_log_json(*l));
    }
}

impl EventLog {
    /// The exact line this event is emitted as.
    pub fn to_event_string(&self) -> (r: String)
        ensures
            r@ == spec_event_line(*self),
    {
        let mut out: Vec<char> = Vec::new();
        push_str_chars(&mut out, "EVENT_JSON:");
        push_str_chars(&mut out, "{\"standard\":");
        push_json_string(&mut out, self.standard.as_str());
        push_str_chars(&mut out, ",\"version\":");
        push_json_string(&mut out, self.version.as_str());
        match &self.event {
            EventLogVariant::NftMint(logs) => {
                push_str_chars(&mut out, ",\"event\":\"nft_mint\",\"data\":[");
                let ghost data_base = out@;
                let mut i: usize = 0;
                proof {
                    assert(data_base + spec_mint_data_json(logs@.take(0)) =~= data_base);
                }
                while i < logs.len()
                    invariant
                        i <= logs.len(),
                        out@ == data_base + spec_mint_data_json(logs@.take(i as int)),
                    decreases logs.len() - i,
                {
                    if i > 0 {
                        out.push(',');
                    }
                    push_mint_log(&mut out, &logs[i]);
                    proof {
                        if i == 0 {
                            assert(logs@.take(1)[0] == logs@[0]);
                            assert(spec_mint_data_json(logs@.take(1)) == spec_mint_log_json(
                                logs@[0],
                            ));
                            assert(data_base + spec_mint_data_json(logs@.take(0)) =~= data_base);
                            assert(out@ =~= data_base + spec_mint_data_json(logs@.take(1)));
                        } else {
                            assert(logs@.take(i as int + 1).drop_last() =~= logs@.take(i as int));
                            assert(logs@.take(i as int + 1).last() == logs@[i as int]);
                            assert(spec_mint_data_json(logs@.take(i as int + 1))
                                == spec_mint_data_json(logs@.take(i as int)) + seq![',']
                                + spec_mint_log_json(logs@[i as int]));
                            assert(out@ =~= data_base + spec_mint_data_json(logs@.take(
                                i as int + 1,
                            )));
                        }
                    }
                    i = i + 1;
                }
                proof {
                    assert(logs@.take(logs@.len() as int) =~= logs@);
                }
                push_str_chars(&mut out, "]");
            },
        }
        push_str_chars(&mut out, "}");
        proof {
            assert(out@ =~= spec_event_line(*self));
        }
        string_from_chars(out)
    }
}

impl NftMintLog {
    /// The full line announcing a batch of mints, under the fixed standard
    /// name and version; the host emits it to its log.
    pub fn emit_line(mint_logs: Vec<NftMintLog>) -> (r: String)
        ensures
            r@ == "EVENT_JSON:"@ + "{\"standard\":"@ + json_string("nep171"@) + ",\"version\":"@
                + json_string("1.0.0"@) + ",\"event\":\"nft_mint\",\"data\":["@
                + spec_mint_data_json(mint_logs@) + "]"@ + "}"@,
    {
        let event_log = EventLog {
            standard: String::from_str("nep171"),
            version: String::from_str("1.0.0"),
            event: EventLogVariant::NftMint(mint_logs),
        };
        event_log.to_event_string()
    }
}

} // verus!
