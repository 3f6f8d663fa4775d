//! Encoder/decoder consistency: what the generators emit, the parser reads
//! back.
//!
//! The compact document reconstructs every tool's name, discriminator and
//! required-parameter list exactly; a paginated page reconstructs the tool it
//! carries and holds a `nextCursor` exactly when more tools follow, which
//! bounds the aggregator's walk.

use vstd::prelude::*;
use crate::json::{
    compact_schema_json, compact_tool_json, compact_props, compact_keys, compact_acc_prop,
    compact_arg_prop, acc_key, arg_key, req_entry, disc_hex_chars, dec_digits, cursor_str,
    escape_char, escape_str, join_comma, lemma_escape_concat, page_json, verbose_acc_item,
    verbose_arg_item, verbose_params, verbose_tool_json,
};
use crate::discriminator::hex_digit_byte;
use crate::hex::{hex_bytes, hex_val, is_hex_digit, is_hex_string};
use crate::parse::{
    is_ws, parse_jval, parse_str_body, skip_array_rest, skip_object_rest, unescape_char, ws_end,
    JValV,
};
use crate::schema::{suffix_spec, AccountMetaV, ArgV, SchemaV, ToolV};

verus! {

/// A character the escaper passes through unchanged.
pub open spec fn is_plain(c: char) -> bool {
    c != '"' && c != '\\' && c != '\n' && c != '\r' && c != '\t'
}

/// Every character of `s` is plain.
pub open spec fn all_plain(s: Seq<char>) -> bool {
    forall|i: int| 0 <= i < s.len() ==> is_plain(#[trigger] s[i])
}

/// Escaping a plain string changes nothing.
pub proof fn lemma_escape_id(s: Seq<char>)
    requires
        all_plain(s),
    ensures
        escape_str(s) == s,
    decreases s.len(),
{
    if s.len() > 0 {
        assert(is_plain(s[0]));
        assert(escape_char(s[0]) == seq![s[0]]);
        assert(all_plain(s.skip(1))) by {
            assert(forall|i: int| 0 <= i < s.skip(1).len() ==> s.skip(1)[i] == s[i + 1]);
        }
        lemma_escape_id(s.skip(1));
        assert(escape_str(s) =~= s);
    }
}

/// Escaping never produces the empty sequence for a non-empty input, and
/// grows with the input.
pub proof fn lemma_escape_len(s: Seq<char>)
    ensures
        escape_str(s).len() >= s.len(),
    decreases s.len(),
{
    if s.len() > 0 {
        lemma_escape_len(s.skip(1));
    }
}

/// Skipping whitespace at a non-whitespace character stays put.
pub proof fn lemma_ws_stay(s: Seq<char>, i: int)
    requires
        0 <= i < s.len() ==> !is_ws(s[i]),
    ensures
        ws_end(s, i) == i,
{
}

/// Parsing a string body over an escaped content followed by a closing quote
/// recovers the content and stops just past the quote.
pub proof fn lemma_parse_str_round(s: Seq<char>, i: int, content: Seq<char>, rest: Seq<char>)
    requires
        0 <= i <= s.len(),
        s.skip(i) == escape_str(content) + seq!['"'] + rest,
    ensures
        parse_str_body(s, i) == Some((content, i + escape_str(content).len() + 1)),
    decreases content.len(),
{
    let tail = s.skip(i);
    assert(tail.len() == escape_str(content).len() + 1 + rest.len());
    lemma_escape_len(content);
    assert(i < s.len());
    assert(s[i] == tail[0]);
    if content.len() == 0 {
        assert(escape_str(content) == Seq::<char>::empty());
        assert(tail[0] == '"');
        assert(parse_str_body(s, i) == Some((Seq::<char>::empty(), i + 1)));
        assert(content =~= Seq::<char>::empty());
    } else {
        let c = content[0];
        let es = escape_char(c);
        assert(escape_str(content) == es + escape_str(content.skip(1)));
        if c == '"' || c == '\\' || c == '\n' || c == '\r' || c == '\t' {
            assert(es.len() == 2 && es[0] == '\\');
            assert(tail[0] == '\\');
            assert(i + 1 < s.len());
            assert(s[i + 1] == tail[1]);
            assert(tail[1] == es[1]);
            assert(unescape_char(es[1]) == Some(c));
            assert(s.skip(i + 2) =~= escape_str(content.skip(1)) + seq!['"'] + rest) by {
                assert(s.skip(i + 2) =~= tail.skip(2));
            }
            lemma_parse_str_round(s, i + 2, content.skip(1), rest);
            assert(seq![c] + content.skip(1) =~= content);
            assert(parse_str_body(s, i) == Some(
                (content, i + escape_str(content).len() + 1),
            ));
        } else {
            assert(es =~= seq![c]);
            assert(tail[0] == c);
            assert(s[i] == c && c != '"' && c != '\\');
            assert(s.skip(i + 1) =~= escape_str(content.skip(1)) + seq!['"'] + rest) by {
                assert(s.skip(i + 1) =~= tail.skip(1));
            }
            lemma_parse_str_round(s, i + 1, content.skip(1), rest);
            assert(seq![c] + content.skip(1) =~= content);
            assert(parse_str_body(s, i) == Some(
                (content, i + escape_str(content).len() + 1),
            ));
        }
    }
}

/// The hex characters of a discriminator are plain hex digits.
pub proof fn lemma_disc_hex_plain(d: Seq<u8>)
    requires
        d.len() == 8,
    ensures
        all_plain(disc_hex_chars(d)),
        is_hex_string(disc_hex_chars(d)),
        disc_hex_chars(d).len() == 16,
{
    assert forall|i: int| 0 <= i < 16 implies is_plain(#[trigger] disc_hex_chars(d)[i])
        && is_hex_digit(disc_hex_chars(d)[i]) by {
        let n = if i % 2 == 0 {
            (d[i / 2] / 16) as u8
        } else {
            (d[i / 2] % 16) as u8
        };
        assert(n < 16);
        assert(disc_hex_chars(d)[i] == hex_digit_byte(n) as char);
    }
}

/// Decoding the emitted hex of a discriminator gives the bytes back.
pub proof fn lemma_hex_round(d: Seq<u8>)
    requires
        d.len() == 8,
    ensures
        is_hex_string(disc_hex_chars(d)),
        hex_bytes(disc_hex_chars(d)).len() == 8,
        hex_bytes(disc_hex_chars(d)) =~= d,
{
    lemma_disc_hex_plain(d);
    let h = disc_hex_chars(d);
    assert forall|k: int| 0 <= k < 8 implies #[trigger] hex_bytes(h)[k] == d[k] by {
        let hi = (d[k] / 16) as u8;
        let lo = (d[k] % 16) as u8;
        assert(h[2 * k] == hex_digit_byte(hi) as char);
        assert(h[2 * k + 1] == hex_digit_byte(lo) as char);
        assert(hex_val(hex_digit_byte(hi) as char) == hi);
        assert(hex_val(hex_digit_byte(lo) as char) == lo);
    }
}

/// A scalar member value as the generators emit it: a quoted string or the
/// literal `true`.
pub enum MemVal {
    VStr(Seq<char>),
    VTrue,
}

/// The text of a member value.
pub open spec fn memval_text(v: MemVal) -> Seq<char> {
    match v {
        MemVal::VStr(t) => seq!['"'] + escape_str(t) + seq!['"'],
        MemVal::VTrue => seq!['t', 'r', 'u', 'e'],
    }
}

/// The text of one object member.
pub open spec fn member_text(k: Seq<char>, v: MemVal) -> Seq<char> {
    seq!['"'] + escape_str(k) + seq!['"', ':'] + memval_text(v)
}

/// The text of an object's members followed by its closing brace.
pub open spec fn members_text(ms: Seq<(Seq<char>, MemVal)>) -> Seq<char> {
    join_comma(ms.map_values(|m: (Seq<char>, MemVal)| member_text(m.0, m.1))) + seq!['}']
}

/// Parsing one emitted scalar value yields a string or boolean and stops
/// just past it.
pub proof fn lemma_jval_memval(s: Seq<char>, i: int, v: MemVal, rest: Seq<char>)
    requires
        0 <= i <= s.len(),
        s.skip(i) == memval_text(v) + rest,
    ensures
        parse_jval(s, i) == Some(
            (
                match v {
                    MemVal::VStr(t) => JValV::S(t),
                    MemVal::VTrue => JValV::B(true),
                },
                i + memval_text(v).len(),
            ),
        ),
{
    let tail = s.skip(i);
    assert(tail.len() == s.len() - i);
    match v {
        MemVal::VStr(t) => {
            lemma_escape_len(t);
            assert(tail.len() >= 2 + rest.len());
            assert(i < s.len());
            assert(s[i] == tail[0]);
            assert(tail[0] == '"');
            lemma_ws_stay(s, i);
            assert(s.skip(i + 1) =~= escape_str(t) + seq!['"'] + rest) by {
                assert(s.skip(i + 1) =~= tail.skip(1));
            }
            lemma_parse_str_round(s, i + 1, t, rest);
        },
        MemVal::VTrue => {
            assert(tail.len() >= 4 + rest.len());
            assert(i < s.len());
            assert(s[i] == tail[0]);
            assert(tail[0] == 't');
            lemma_ws_stay(s, i);
            reveal_strlit("true");
            assert(i + 4 <= s.len());
            assert(s.subrange(i, i + 4) =~= "true"@) by {
                assert(tail[0] == 't' && tail[1] == 'r' && tail[2] == 'u' && tail[3] == 'e');
                assert(forall|m: int| 0 <= m < 4 ==> s.subrange(i, i + 4)[m] == tail[m]);
            }
            assert(crate::strutil::matches_at(s, "true"@, i));
            assert(parse_jval(s, i) == Some((JValV::B(true), i + 4)));
        },
    }
}

/// Parsing the members of a verbose parameter object consumes them and the
/// closing brace.
#[verifier::rlimit(100)]
pub proof fn lemma_detail_members(
    s: Seq<char>,
    i: int,
    ms: Seq<(Seq<char>, MemVal)>,
    acc: crate::client::ParamDetailV,
    rest: Seq<char>,
)
    requires
        0 <= i <= s.len(),
        s.skip(i) == members_text(ms) + rest,
    ensures
        crate::decode::parse_detail_rest(s, i, acc) matches Some(p) && p.1 == i + members_text(
            ms,
        ).len(),
    decreases ms.len(),
{
    let tail = s.skip(i);
    let items = ms.map_values(|m: (Seq<char>, MemVal)| member_text(m.0, m.1));
    if ms.len() == 0 {
        assert(members_text(ms) =~= seq!['}']);
        assert(s[i] == tail[0]);
        assert(tail[0] == '}');
        lemma_ws_stay(s, i);
        assert(crate::decode::parse_detail_rest(s, i, acc) == Some((acc, i + 1)));
    } else {
        let k0 = ms[0].0;
        let v0 = ms[0].1;
        let item0 = member_text(k0, v0);
        let after = if ms.len() == 1 {
            seq!['}'] + rest
        } else {
            seq![','] + join_comma(items.skip(1)) + seq!['}'] + rest
        };
        assert(join_comma(items) == if items.len() == 1 {
            items[0]
        } else {
            items[0] + ","@ + join_comma(items.skip(1))
        });
        assert(items[0] == item0);
        assert(s.skip(i) =~= item0 + after) by {
            reveal_strlit(",");
        }
        lemma_escape_len(k0);
        assert(s[i] == tail[0]);
        assert(tail[0] == '"');
        lemma_ws_stay(s, i);
        assert(s.skip(i + 1) =~= escape_str(k0) + seq!['"'] + (seq![':'] + memval_text(v0)
            + after)) by {
            assert(s.skip(i + 1) =~= tail.skip(1));
        }
        lemma_parse_str_round(s, i + 1, k0, seq![':'] + memval_text(v0) + after);
        let j = i + 1 + escape_str(k0).len() + 1;
        assert(parse_str_body(s, i + 1) == Some((k0, j)));
        assert(s.skip(j) =~= seq![':'] + memval_text(v0) + after) by {
            assert(s.skip(j) =~= tail.skip(j - i));
        }
        assert(s[j] == s.skip(j)[0]);
        lemma_ws_stay(s, j);
        assert(s.skip(j + 1) =~= memval_text(v0) + after) by {
            assert(s.skip(j + 1) =~= s.skip(j).skip(1));
        }
        lemma_jval_memval(s, j + 1, v0, after);
        let j2 = j + 1 + memval_text(v0).len();
        assert(s.skip(j2) =~= after) by {
            assert(s.skip(j2) =~= s.skip(j + 1).skip(memval_text(v0).len() as int));
        }
        assert(s[j2] == s.skip(j2)[0]);
        lemma_ws_stay(s, j2);
        if ms.len() == 1 {
            assert(s[j2] == '}');
            assert(crate::decode::parse_detail_rest(s, i, acc) matches Some(p) && p.1 == j2 + 1);
            assert(members_text(ms).len() == item0.len() + 1);
        } else {
            assert(s[j2] == ',');
            assert(s.skip(j2 + 1) =~= join_comma(items.skip(1)) + seq!['}'] + rest) by {
                assert(s.skip(j2 + 1) =~= s.skip(j2).skip(1));
            }
            assert(items.skip(1) =~= ms.skip(1).map_values(
                |m: (Seq<char>, MemVal)| member_text(m.0, m.1),
            ));
            assert(s.skip(j2 + 1) =~= members_text(ms.skip(1)) + rest);
            lemma_detail_members(s, j2 + 1, ms.skip(1), crate::decode::detail_update(acc, k0,
                match v0 {
                    MemVal::VStr(t) => JValV::S(t),
                    MemVal::VTrue => JValV::B(true),
                },
            ), rest);
            assert(members_text(ms).len() == item0.len() + 1 + members_text(ms.skip(1)).len());
        }
    }
}

/// A raw parameter value as the generators emit it: a quoted type string or
/// an object of scalar members.
pub enum PValT {
    PStr(Seq<char>),
    PObj(Seq<(Seq<char>, MemVal)>),
}

/// The text of a raw parameter value.
pub open spec fn pval_text(v: PValT) -> Seq<char> {
    match v {
        PValT::PStr(t) => seq!['"'] + escape_str(t) + seq!['"'],
        PValT::PObj(ms) => seq!['{'] + members_text(ms),
    }
}

/// Parsing one emitted parameter value succeeds and stops just past it.
pub proof fn lemma_param_value(s: Seq<char>, i: int, v: PValT, rest: Seq<char>)
    requires
        0 <= i <= s.len(),
        s.skip(i) == pval_text(v) + rest,
    ensures
        crate::decode::parse_param_value(s, i) matches Some(p) && p.1 == i + pval_text(v).len(),
{
    let tail = s.skip(i);
    assert(tail.len() == s.len() - i);
    match v {
        PValT::PStr(t) => {
            lemma_escape_len(t);
            assert(tail.len() >= 2 + rest.len());
            assert(i < s.len());
            assert(s[i] == tail[0]);
            assert(tail[0] == '"');
            lemma_ws_stay(s, i);
            assert(s.skip(i + 1) =~= escape_str(t) + seq!['"'] + rest) by {
                assert(s.skip(i + 1) =~= tail.skip(1));
            }
            lemma_parse_str_round(s, i + 1, t, rest);
        },
        PValT::PObj(ms) => {
            assert(members_text(ms).len() >= 1) by {
                assert(members_text(ms) == join_comma(
                    ms.map_values(|m: (Seq<char>, MemVal)| member_text(m.0, m.1)),
                ) + seq!['}']);
            }
            assert(i < s.len());
            assert(s[i] == tail[0]);
            assert(tail[0] == '{');
            lemma_ws_stay(s, i);
            assert(s.skip(i + 1) =~= members_text(ms) + rest) by {
                assert(s.skip(i + 1) =~= tail.skip(1));
            }
            lemma_detail_members(s, i + 1, ms, crate::decode::empty_detail(), rest);
        },
    }
}

/// The text of a parameter map's members followed by its closing brace.
pub open spec fn params_text(ps: Seq<(Seq<char>, PValT)>) -> Seq<char> {
    join_comma(
        ps.map_values(
            |p: (Seq<char>, PValT)| seq!['"'] + escape_str(p.0) + seq!['"', ':'] + pval_text(p.1),
        ),
    ) + seq!['}']
}

/// Parsing the members of an emitted parameter map consumes them and the
/// closing brace.
#[verifier::rlimit(100)]
pub proof fn lemma_params_members(
    s: Seq<char>,
    i: int,
    ps: Seq<(Seq<char>, PValT)>,
    acc: Seq<(Seq<char>, crate::client::ParamValueV)>,
    rest: Seq<char>,
)
    requires
        0 <= i <= s.len(),
        s.skip(i) == params_text(ps) + rest,
    ensures
        crate::decode::parse_params_rest(s, i, acc) matches Some(p) && p.1 == i + params_text(
            ps,
        ).len(),
    decreases ps.len(),
{
    let tail = s.skip(i);
    let items = ps.map_values(
        |p: (Seq<char>, PValT)| seq!['"'] + escape_str(p.0) + seq!['"', ':'] + pval_text(p.1),
    );
    if ps.len() == 0 {
        assert(params_text(ps) =~= seq!['}']);
        assert(s[i] == tail[0]);
        assert(tail[0] == '}');
        lemma_ws_stay(s, i);
    } else {
        let k0 = ps[0].0;
        let v0 = ps[0].1;
        let item0 = seq!['"'] + escape_str(k0) + seq!['"', ':'] + pval_text(v0);
        let after = if ps.len() == 1 {
            seq!['}'] + rest
        } else {
            seq![','] + join_comma(items.skip(1)) + seq!['}'] + rest
        };
        assert(join_comma(items) == if items.len() == 1 {
            items[0]
        } else {
            items[0] + ","@ + join_comma(items.skip(1))
        });
        assert(items[0] == item0);
        assert(s.skip(i) =~= item0 + after) by {
            reveal_strlit(",");
        }
        lemma_escape_len(k0);
        assert(s[i] == tail[0]);
        assert(tail[0] == '"');
        lemma_ws_stay(s, i);
        assert(s.skip(i + 1) =~= escape_str(k0) + seq!['"'] + (seq![':'] + pval_text(v0) + after))
            by {
            assert(s.skip(i + 1) =~= tail.skip(1));
        }
        lemma_parse_str_round(s, i + 1, k0, seq![':'] + pval_text(v0) + after);
        let j = i + 1 + escape_str(k0).len() + 1;
        assert(s.skip(j) =~= seq![':'] + pval_text(v0) + after) by {
            assert(s.skip(j) =~= tail.skip(j - i));
        }
        assert(s[j] == s.skip(j)[0]);
        lemma_ws_stay(s, j);
        assert(s.skip(j + 1) =~= pval_text(v0) + after) by {
            assert(s.skip(j + 1) =~= s.skip(j).skip(1));
        }
        lemma_param_value(s, j + 1, v0, after);
        let j2 = j + 1 + pval_text(v0).len();
        assert(s.skip(j2) =~= after) by {
            assert(s.skip(j2) =~= s.skip(j + 1).skip(pval_text(v0).len() as int));
        }
        assert(s[j2] == s.skip(j2)[0]);
        lemma_ws_stay(s, j2);
        let acc2 = crate::decode::upsert(
            acc,
            k0,
            crate::decode::parse_param_value(s, j + 1)->Some_0.0,
        );
        if ps.len() == 1 {
            assert(s[j2] == '}');
            assert(params_text(ps).len() == item0.len() + 1);
        } else {
            assert(s[j2] == ',');
            assert(s.skip(j2 + 1) =~= join_comma(items.skip(1)) + seq!['}'] + rest) by {
                assert(s.skip(j2 + 1) =~= s.skip(j2).skip(1));
            }
            assert(items.skip(1) =~= ps.skip(1).map_values(
                |p: (Seq<char>, PValT)| seq!['"'] + escape_str(p.0) + seq!['"', ':'] + pval_text(
                    p.1,
                ),
            ));
            assert(s.skip(j2 + 1) =~= params_text(ps.skip(1)) + rest);
            lemma_params_members(s, j2 + 1, ps.skip(1), acc2, rest);
            assert(params_text(ps).len() == item0.len() + 1 + params_text(ps.skip(1)).len());
        }
    }
}

/// The text of a required array's elements followed by its closing bracket.
pub open spec fn reqs_text(keys: Seq<Seq<char>>) -> Seq<char> {
    join_comma(keys.map_values(|k: Seq<char>| seq!['"'] + escape_str(k) + seq!['"'])) + seq![']']
}

/// Parsing the elements of an emitted required array recovers the keys in
/// order and consumes the closing bracket.
#[verifier::rlimit(100)]
pub proof fn lemma_reqs_members(
    s: Seq<char>,
    i: int,
    keys: Seq<Seq<char>>,
    acc: Seq<Seq<char>>,
    rest: Seq<char>,
)
    requires
        0 <= i <= s.len(),
        s.skip(i) == reqs_text(keys) + rest,
    ensures
        crate::decode::parse_req_rest(s, i, acc) == Some((acc + keys, i + reqs_text(keys).len())),
    decreases keys.len(),
{
    let tail = s.skip(i);
    let items = keys.map_values(|k: Seq<char>| seq!['"'] + escape_str(k) + seq!['"']);
    if keys.len() == 0 {
        assert(reqs_text(keys) =~= seq![']']);
        assert(s[i] == tail[0]);
        assert(tail[0] == ']');
        lemma_ws_stay(s, i);
        assert(acc + keys =~= acc);
    } else {
        let k0 = keys[0];
        let item0 = seq!['"'] + escape_str(k0) + seq!['"'];
        let after = if keys.len() == 1 {
            seq![']'] + rest
        } else {
            seq![','] + join_comma(items.skip(1)) + seq![']'] + rest
        };
        assert(join_comma(items) == if items.len() == 1 {
            items[0]
        } else {
            items[0] + ","@ + join_comma(items.skip(1))
        });
        assert(items[0] == item0);
        assert(s.skip(i) =~= item0 + after) by {
            reveal_strlit(",");
        }
        lemma_escape_len(k0);
        assert(s[i] == tail[0]);
        assert(tail[0] == '"');
        lemma_ws_stay(s, i);
        assert(s.skip(i + 1) =~= escape_str(k0) + seq!['"'] + after) by {
            assert(s.skip(i + 1) =~= tail.skip(1));
        }
        lemma_parse_str_round(s, i + 1, k0, after);
        let j = i + 1 + escape_str(k0).len() + 1;
        assert(s.skip(j) =~= after) by {
            assert(s.skip(j) =~= tail.skip(j - i));
        }
        assert(s[j] == s.skip(j)[0]);
        lemma_ws_stay(s, j);
        if keys.len() == 1 {
            assert(s[j] == ']');
            assert(acc.push(k0) + keys.skip(1) =~= acc + keys);
            assert(acc.push(k0) =~= acc + keys);
            assert(reqs_text(keys).len() == item0.len() + 1);
        } else {
            assert(s[j] == ',');
            assert(s.skip(j + 1) =~= join_comma(items.skip(1)) + seq![']'] + rest) by {
                assert(s.skip(j + 1) =~= s.skip(j).skip(1));
            }
            assert(items.skip(1) =~= keys.skip(1).map_values(
                |k: Seq<char>| seq!['"'] + escape_str(k) + seq!['"'],
            ));
            assert(s.skip(j + 1) =~= reqs_text(keys.skip(1)) + rest);
            lemma_reqs_members(s, j + 1, keys.skip(1), acc.push(k0), rest);
            assert(acc.push(k0) + keys.skip(1) =~= acc + keys);
            assert(reqs_text(keys).len() == item0.len() + 1 + reqs_text(keys.skip(1)).len());
        }
    }
}

/// The parameter map the compact encoder emits for a tool, as generic
/// key/value pairs: account keys carry their suffix, values are bare type
/// strings.
pub open spec fn ps_of(t: ToolV) -> Seq<(Seq<char>, PValT)> {
    t.accounts.map_values(
        |a: AccountMetaV| (a.name + suffix_spec(a.is_signer, a.is_writable), PValT::PStr(
            "pubkey"@,
        )),
    ) + t.args.map_values(
        |g: ArgV| (g.name, PValT::PStr(crate::schema::compact_name_spec(g.arg_type))),
    )
}

/// The raw (unescaped) parameter keys of a tool, accounts before arguments.
pub open spec fn keys_of(t: ToolV) -> Seq<Seq<char>> {
    t.accounts.map_values(|a: AccountMetaV| a.name + suffix_spec(a.is_signer, a.is_writable))
        + t.args.map_values(|g: ArgV| g.name)
}

/// Suffix tokens are plain.
pub proof fn lemma_suffix_plain(sg: bool, wr: bool)
    ensures
        all_plain(suffix_spec(sg, wr)),
        escape_str(suffix_spec(sg, wr)) == suffix_spec(sg, wr),
{
    reveal_strlit("_sw");
    reveal_strlit("_s");
    reveal_strlit("_w");
    reveal_strlit("");
    lemma_escape_id(suffix_spec(sg, wr));
}

/// Compact type tokens are plain.
pub proof fn lemma_type_token_plain(ty: crate::schema::ArgType)
    ensures
        all_plain(crate::schema::compact_name_spec(ty)),
        escape_str(crate::schema::compact_name_spec(ty)) == crate::schema::compact_name_spec(ty),
{
    reveal_strlit("u8");
    reveal_strlit("u16");
    reveal_strlit("u32");
    reveal_strlit("u64");
    reveal_strlit("u128");
    reveal_strlit("i8");
    reveal_strlit("i16");
    reveal_strlit("i32");
    reveal_strlit("i64");
    reveal_strlit("i128");
    reveal_strlit("bool");
    reveal_strlit("pubkey");
    reveal_strlit("str");
    reveal_strlit("bytes");
    lemma_escape_id(crate::schema::compact_name_spec(ty));
}

/// The generic rendering of one account property equals the compact
/// encoder's.
pub proof fn lemma_acc_item_eq(a: AccountMetaV)
    ensures
        seq!['"'] + escape_str(a.name + suffix_spec(a.is_signer, a.is_writable)) + seq!['"', ':']
            + pval_text(PValT::PStr("pubkey"@)) == compact_acc_prop(a),
{
    let sfx = suffix_spec(a.is_signer, a.is_writable);
    lemma_suffix_plain(a.is_signer, a.is_writable);
    lemma_escape_concat(a.name, sfx);
    reveal_strlit("pubkey");
    lemma_escape_id("pubkey"@);
    reveal_strlit("\"");
    reveal_strlit("\":\"pubkey\"");
    assert(seq!['"'] + (escape_str(a.name) + sfx) + seq!['"', ':'] + (seq!['"'] + "pubkey"@
        + seq!['"']) =~= "\""@ + escape_str(a.name) + sfx + "\":\"pubkey\""@);
}

/// The generic rendering of one argument property equals the compact
/// encoder's.
pub proof fn lemma_arg_item_eq(g: ArgV)
    ensures
        seq!['"'] + escape_str(g.name) + seq!['"', ':'] + pval_text(
            PValT::PStr(crate::schema::compact_name_spec(g.arg_type)),
        ) == compact_arg_prop(g),
{
    let tok = crate::schema::compact_name_spec(g.arg_type);
    lemma_type_token_plain(g.arg_type);
    reveal_strlit("\"");
    reveal_strlit("\":\"");
    assert(seq!['"'] + escape_str(g.name) + seq!['"', ':'] + (seq!['"'] + tok + seq!['"']) =~= "\""@
        + escape_str(g.name) + "\":\""@ + tok + "\""@);
}

/// The generic parameter-map text equals what the compact encoder emits,
/// and the generic required text equals the emitted required array.
pub proof fn lemma_compact_params_text(t: ToolV)
    ensures
        params_text(ps_of(t)) == join_comma(compact_props(t)) + seq!['}'],
        reqs_text(keys_of(t)) == join_comma(
            compact_keys(t).map_values(|k: Seq<char>| req_entry(k)),
        ) + seq![']'],
{
    let items = ps_of(t).map_values(
        |p: (Seq<char>, PValT)| seq!['"'] + escape_str(p.0) + seq!['"', ':'] + pval_text(p.1),
    );
    assert(items =~= compact_props(t)) by {
        assert forall|i: int| 0 <= i < items.len() implies items[i] == compact_props(t)[i] by {
            if i < t.accounts.len() {
                lemma_acc_item_eq(t.accounts[i]);
            } else {
                lemma_arg_item_eq(t.args[i - t.accounts.len()]);
            }
        }
    }
    let ritems = keys_of(t).map_values(|k: Seq<char>| seq!['"'] + escape_str(k) + seq!['"']);
    assert(ritems =~= compact_keys(t).map_values(|k: Seq<char>| req_entry(k))) by {
        assert forall|i: int| 0 <= i < ritems.len() implies ritems[i] == compact_keys(t).map_values(
            |k: Seq<char>| req_entry(k),
        )[i] by {
            reveal_strlit("\"");
            if i < t.accounts.len() {
                let a = t.accounts[i];
                lemma_suffix_plain(a.is_signer, a.is_writable);
                lemma_escape_concat(a.name, suffix_spec(a.is_signer, a.is_writable));
                assert(ritems[i] =~= req_entry(acc_key(a)));
            } else {
                let g = t.args[i - t.accounts.len()];
                assert(ritems[i] =~= req_entry(arg_key(g)));
            }
        }
    }
}

/// The compact tool text, laid out member by member.
#[verifier::rlimit(100)]
pub proof fn lemma_compact_tool_shape(t: ToolV)
    requires
        t.discriminator.len() == 8,
    ensures
        compact_tool_json(t) == seq!['{'] + member_text(seq!['n'], MemVal::VStr(t.name)) + (
        match t.description {
            Some(d) => seq![','] + member_text(seq!['i'], MemVal::VStr(d)),
            None => Seq::<char>::empty(),
        }) + seq![','] + member_text(seq!['d'], MemVal::VStr(disc_hex_chars(t.discriminator)))
            + (if t.accounts.len() == 0 && t.args.len() == 0 {
            seq!['}']
        } else {
            seq![','] + seq!['"', 'p', '"', ':', '{'] + params_text(ps_of(t)) + seq![','] + seq![
                '"',
                'r',
                '"',
                ':',
                '[',
            ] + reqs_text(keys_of(t)) + seq!['}']
        }),
{
    reveal(compact_tool_json);
    reveal_strlit("{\"n\":\"");
    reveal_strlit("\"");
    reveal_strlit(",\"i\":\"");
    reveal_strlit(",\"d\":\"");
    reveal_strlit("\"}");
    reveal_strlit("\",\"p\":{");
    reveal_strlit("},\"r\":[");
    reveal_strlit("]}");
    assert(all_plain(seq!['n']) && all_plain(seq!['i']) && all_plain(seq!['d']));
    lemma_escape_id(seq!['n']);
    lemma_escape_id(seq!['i']);
    lemma_escape_id(seq!['d']);
    lemma_disc_hex_plain(t.discriminator);
    lemma_escape_id(disc_hex_chars(t.discriminator));
    lemma_compact_params_text(t);
    if t.accounts.len() == 0 && t.args.len() == 0 {
        match t.description {
            Some(d) => {
                assert(compact_tool_json(t) =~= seq!['{'] + member_text(
                    seq!['n'],
                    MemVal::VStr(t.name),
                ) + (seq![','] + member_text(seq!['i'], MemVal::VStr(d))) + seq![','] + member_text(
                    seq!['d'],
                    MemVal::VStr(disc_hex_chars(t.discriminator)),
                ) + seq!['}']);
            },
            None => {
                assert(compact_tool_json(t) =~= seq!['{'] + member_text(
                    seq!['n'],
                    MemVal::VStr(t.name),
                ) + Seq::<char>::empty() + seq![','] + member_text(
                    seq!['d'],
                    MemVal::VStr(disc_hex_chars(t.discriminator)),
                ) + seq!['}']);
            },
        }
    } else {
        let tailp = seq![','] + seq!['"', 'p', '"', ':', '{'] + params_text(ps_of(t)) + seq![',']
            + seq!['"', 'r', '"', ':', '['] + reqs_text(keys_of(t)) + seq!['}'];
        match t.description {
            Some(d) => {
                assert(compact_tool_json(t) =~= seq!['{'] + member_text(
                    seq!['n'],
                    MemVal::VStr(t.name),
                ) + (seq![','] + member_text(seq!['i'], MemVal::VStr(d))) + seq![','] + member_text(
                    seq!['d'],
                    MemVal::VStr(disc_hex_chars(t.discriminator)),
                ) + tailp);
            },
            None => {
                assert(compact_tool_json(t) =~= seq!['{'] + member_text(
                    seq!['n'],
                    MemVal::VStr(t.name),
                ) + Seq::<char>::empty() + seq![','] + member_text(
                    seq!['d'],
                    MemVal::VStr(disc_hex_chars(t.discriminator)),
                ) + tailp);
            },
        }
    }
}

/// Parse facts for one emitted string-valued member.
#[verifier::rlimit(100)]
pub proof fn lemma_str_member_facts(
    s: Seq<char>,
    i: int,
    key: Seq<char>,
    value: Seq<char>,
    rest: Seq<char>,
)
    requires
        0 <= i <= s.len(),
        all_plain(key),
        s.skip(i) == member_text(key, MemVal::VStr(value)) + rest,
    ensures
        ws_end(s, i) == i,
        i < s.len() && s[i] == '"',
        parse_str_body(s, i + 1) == Some((key, i + key.len() + 2)),
        ({
            let jc = i + key.len() + 2;
            &&& jc < s.len() && s[jc] == ':' && ws_end(s, jc) == jc
            &&& parse_jval(s, jc + 1) == Some(
                (JValV::S(value), i + member_text(key, MemVal::VStr(value)).len()),
            )
            &&& i + member_text(key, MemVal::VStr(value)).len() <= s.len()
        }),
{
    let tail = s.skip(i);
    let mt = member_text(key, MemVal::VStr(value));
    assert(tail.len() == s.len() - i);
    lemma_escape_id(key);
    lemma_escape_len(value);
    assert(tail.len() == mt.len() + rest.len());
    assert(mt.len() >= key.len() + 5);
    assert(i < s.len());
    assert(s[i] == tail[0]);
    assert(tail[0] == '"');
    lemma_ws_stay(s, i);
    assert(s.skip(i + 1) =~= key + seq!['"'] + (seq![':'] + memval_text(MemVal::VStr(value))
        + rest)) by {
        assert(s.skip(i + 1) =~= tail.skip(1));
    }
    lemma_parse_str_round(s, i + 1, key, seq![':'] + memval_text(MemVal::VStr(value)) + rest);
    let jc = i + key.len() + 2;
    assert(s.skip(jc) =~= seq![':'] + memval_text(MemVal::VStr(value)) + rest) by {
        assert(s.skip(jc) =~= tail.skip(jc - i));
    }
    assert(s[jc] == s.skip(jc)[0]);
    lemma_ws_stay(s, jc);
    assert(s.skip(jc + 1) =~= memval_text(MemVal::VStr(value)) + rest) by {
        assert(s.skip(jc + 1) =~= s.skip(jc).skip(1));
    }
    lemma_jval_memval(s, jc + 1, MemVal::VStr(value), rest);
}

/// Parse facts for the emitted parameter-map member.
#[verifier::rlimit(100)]
pub proof fn lemma_obj_member_facts(
    s: Seq<char>,
    i: int,
    key: Seq<char>,
    ps: Seq<(Seq<char>, PValT)>,
    rest: Seq<char>,
)
    requires
        0 <= i <= s.len(),
        all_plain(key),
        s.skip(i) == seq!['"'] + key + seq!['"', ':', '{'] + params_text(ps) + rest,
    ensures
        ws_end(s, i) == i,
        i < s.len() && s[i] == '"',
        parse_str_body(s, i + 1) == Some((key, i + key.len() + 2)),
        ({
            let jc = i + key.len() + 2;
            &&& jc < s.len() && s[jc] == ':' && ws_end(s, jc) == jc
            &&& jc + 1 < s.len() && s[jc + 1] == '{' && ws_end(s, jc + 1) == jc + 1
            &&& crate::decode::parse_params_rest(s, jc + 2, Seq::empty()) matches Some(p) && p.1
                == i + key.len() + 4 + params_text(ps).len()
            &&& i + key.len() + 4 + params_text(ps).len() <= s.len()
        }),
{
    let tail = s.skip(i);
    assert(tail.len() == s.len() - i);
    lemma_escape_id(key);
    assert(params_text(ps).len() >= 1);
    assert(i < s.len());
    assert(s[i] == tail[0]);
    assert(tail[0] == '"');
    lemma_ws_stay(s, i);
    assert(s.skip(i + 1) =~= key + seq!['"'] + (seq![':', '{'] + params_text(ps) + rest)) by {
        assert(s.skip(i + 1) =~= tail.skip(1));
    }
    lemma_parse_str_round(s, i + 1, key, seq![':', '{'] + params_text(ps) + rest);
    let jc = i + key.len() + 2;
    assert(s.skip(jc) =~= seq![':', '{'] + params_text(ps) + rest) by {
        assert(s.skip(jc) =~= tail.skip(jc - i));
    }
    assert(s[jc] == s.skip(jc)[0]);
    assert(s[jc + 1] == s.skip(jc)[1]);
    lemma_ws_stay(s, jc);
    lemma_ws_stay(s, jc + 1);
    assert(s.skip(jc + 2) =~= params_text(ps) + rest) by {
        assert(s.skip(jc + 2) =~= s.skip(jc).skip(2));
    }
    lemma_params_members(s, jc + 2, ps, Seq::empty(), rest);
}

/// Parse facts for the emitted required-array member.
#[verifier::rlimit(100)]
pub proof fn lemma_arr_member_facts(
    s: Seq<char>,
    i: int,
    key: Seq<char>,
    keys: Seq<Seq<char>>,
    rest: Seq<char>,
)
    requires
        0 <= i <= s.len(),
        all_plain(key),
        s.skip(i) == seq!['"'] + key + seq!['"', ':', '['] + reqs_text(keys) + rest,
    ensures
        ws_end(s, i) == i,
        i < s.len() && s[i] == '"',
        parse_str_body(s, i + 1) == Some((key, i + key.len() + 2)),
        ({
            let jc = i + key.len() + 2;
            &&& jc < s.len() && s[jc] == ':' && ws_end(s, jc) == jc
            &&& jc + 1 < s.len() && s[jc + 1] == '[' && ws_end(s, jc + 1) == jc + 1
            &&& crate::decode::parse_req_rest(s, jc + 2, Seq::empty()) == Some(
                (keys, i + key.len() + 4 + reqs_text(keys).len()),
            )
            &&& i + key.len() + 4 + reqs_text(keys).len() <= s.len()
        }),
{
    let tail = s.skip(i);
    assert(tail.len() == s.len() - i);
    lemma_escape_id(key);
    assert(reqs_text(keys).len() >= 1);
    assert(i < s.len());
    assert(s[i] == tail[0]);
    assert(tail[0] == '"');
    lemma_ws_stay(s, i);
    assert(s.skip(i + 1) =~= key + seq!['"'] + (seq![':', '['] + reqs_text(keys) + rest)) by {
        assert(s.skip(i + 1) =~= tail.skip(1));
    }
    lemma_parse_str_round(s, i + 1, key, seq![':', '['] + reqs_text(keys) + rest);
    let jc = i + key.len() + 2;
    assert(s.skip(jc) =~= seq![':', '['] + reqs_text(keys) + rest) by {
        assert(s.skip(jc) =~= tail.skip(jc - i));
    }
    assert(s[jc] == s.skip(jc)[0]);
    assert(s[jc + 1] == s.skip(jc)[1]);
    lemma_ws_stay(s, jc);
    lemma_ws_stay(s, jc + 1);
    assert(s.skip(jc + 2) =~= reqs_text(keys) + rest) by {
        assert(s.skip(jc + 2) =~= s.skip(jc).skip(2));
    }
    lemma_reqs_members(s, jc + 2, keys, Seq::empty(), rest);
    assert(Seq::<Seq<char>>::empty() + keys =~= keys);
}

/// Reveal the member keys a tool object dispatches on.
proof fn reveal_tool_keys()
    ensures
        "n"@ == seq!['n'],
        "i"@ == seq!['i'],
        "d"@ == seq!['d'],
        "p"@ == seq!['p'],
        "r"@ == seq!['r'],
        "name"@.len() == 4,
        "description"@.len() == 11,
        "discriminator"@.len() == 13,
        "params"@.len() == 6,
        "parameters"@.len() == 10,
        "required"@.len() == 8,
{
    reveal_strlit("n");
    reveal_strlit("i");
    reveal_strlit("d");
    reveal_strlit("p");
    reveal_strlit("r");
    reveal_strlit("name");
    reveal_strlit("description");
    reveal_strlit("discriminator");
    reveal_strlit("params");
    reveal_strlit("parameters");
    reveal_strlit("required");
    assert("n"@ =~= seq!['n']);
    assert("i"@ =~= seq!['i']);
    assert("d"@ =~= seq!['d']);
    assert("p"@ =~= seq!['p']);
    assert("r"@ =~= seq!['r']);
}

/// One unfolding of the tool-object parser over a member followed by a
/// comma.
proof fn lemma_tool_unfold_comma(
    s: Seq<char>,
    p: int,
    key: Seq<char>,
    acc: crate::decode::ToolFieldsV,
    acc2: crate::decode::ToolFieldsV,
    e: int,
)
    requires
        0 <= p < s.len(),
        ws_end(s, p) == p,
        s[p] == '"',
        parse_str_body(s, p + 1) == Some((key, p + key.len() + 2)),
        p + key.len() + 2 < s.len(),
        s[p + key.len() + 2] == ':',
        ws_end(s, p + key.len() + 2) == p + key.len() + 2,
        crate::decode::parse_tool_member(s, p + key.len() + 3, key, acc) == Some((acc2, e)),
        p < e < s.len(),
        ws_end(s, e) == e,
        s[e] == ',',
    ensures
        crate::decode::parse_tool_rest(s, p, acc) == crate::decode::parse_tool_rest(
            s,
            e + 1,
            acc2,
        ),
{
}

/// One unfolding of the tool-object parser over the final member and the
/// closing brace.
proof fn lemma_tool_unfold_close(
    s: Seq<char>,
    p: int,
    key: Seq<char>,
    acc: crate::decode::ToolFieldsV,
    acc2: crate::decode::ToolFieldsV,
    e: int,
)
    requires
        0 <= p < s.len(),
        ws_end(s, p) == p,
        s[p] == '"',
        parse_str_body(s, p + 1) == Some((key, p + key.len() + 2)),
        p + key.len() + 2 < s.len(),
        s[p + key.len() + 2] == ':',
        ws_end(s, p + key.len() + 2) == p + key.len() + 2,
        crate::decode::parse_tool_member(s, p + key.len() + 3, key, acc) == Some((acc2, e)),
        p < e < s.len(),
        ws_end(s, e) == e,
        s[e] == '}',
    ensures
        crate::decode::parse_tool_rest(s, p, acc) == match crate::decode::finish_tool(acc2) {
            Some(t) => Some((t, e + 1)),
            None => None,
        },
{
}

/// The tool parser takes a `n` member as the tool's name.
proof fn lemma_member_n(s: Seq<char>, q: int, value: Seq<char>, e: int, acc: crate::decode::ToolFieldsV)
    requires
        parse_jval(s, q) == Some((JValV::S(value), e)),
        acc.name is None,
    ensures
        crate::decode::parse_tool_member(s, q, seq!['n'], acc) == Some(
            (crate::decode::ToolFieldsV { name: Some(value), ..acc }, e),
        ),
{
    reveal_tool_keys();
}

/// The tool parser takes an `i` member as the tool's description.
proof fn lemma_member_i(s: Seq<char>, q: int, value: Seq<char>, e: int, acc: crate::decode::ToolFieldsV)
    requires
        parse_jval(s, q) == Some((JValV::S(value), e)),
        acc.description is None,
    ensures
        crate::decode::parse_tool_member(s, q, seq!['i'], acc) == Some(
            (crate::decode::ToolFieldsV { description: Some(Some(value)), ..acc }, e),
        ),
{
    reveal_tool_keys();
    assert(seq!['i'] != "n"@) by {
        assert("n"@[0] == 'n');
    }
}

/// The tool parser takes a `d` member as the tool's discriminator.
proof fn lemma_member_d(s: Seq<char>, q: int, value: Seq<char>, e: int, acc: crate::decode::ToolFieldsV)
    requires
        parse_jval(s, q) == Some((JValV::S(value), e)),
        acc.discriminator is None,
    ensures
        crate::decode::parse_tool_member(s, q, seq!['d'], acc) == Some(
            (crate::decode::ToolFieldsV { discriminator: Some(value), ..acc }, e),
        ),
{
    reveal_tool_keys();
    assert(seq!['d'] != "n"@) by {
        assert("n"@[0] == 'n');
    }
    assert(seq!['d'] != "i"@) by {
        assert("i"@[0] == 'i');
    }
}

/// The tool parser takes a `p` member as the tool's parameter map.
proof fn lemma_member_p(
    s: Seq<char>,
    q: int,
    m: Seq<(Seq<char>, crate::client::ParamValueV)>,
    e: int,
    acc: crate::decode::ToolFieldsV,
)
    requires
        0 <= q < s.len(),
        ws_end(s, q) == q,
        s[q] == '{',
        crate::decode::parse_params_rest(s, q + 1, Seq::empty()) == Some((m, e)),
        acc.params is None,
    ensures
        crate::decode::parse_tool_member(s, q, seq!['p'], acc) == Some(
            (crate::decode::ToolFieldsV { params: Some(m), ..acc }, e),
        ),
{
    reveal_tool_keys();
    assert(seq!['p'] != "n"@) by {
        assert("n"@[0] == 'n');
    }
    assert(seq!['p'] != "i"@) by {
        assert("i"@[0] == 'i');
    }
    assert(seq!['p'] != "d"@) by {
        assert("d"@[0] == 'd');
    }
}

/// The tool parser takes an `r` member as the tool's required list.
proof fn lemma_member_r(
    s: Seq<char>,
    q: int,
    ks: Seq<Seq<char>>,
    e: int,
    acc: crate::decode::ToolFieldsV,
)
    requires
        0 <= q < s.len(),
        ws_end(s, q) == q,
        s[q] == '[',
        crate::decode::parse_req_rest(s, q + 1, Seq::empty()) == Some((ks, e)),
        acc.required is None,
    ensures
        crate::decode::parse_tool_member(s, q, seq!['r'], acc) == Some(
            (crate::decode::ToolFieldsV { required: Some(ks), ..acc }, e),
        ),
{
    reveal_tool_keys();
    assert(seq!['r'] != "n"@) by {
        assert("n"@[0] == 'n');
    }
    assert(seq!['r'] != "i"@) by {
        assert("i"@[0] == 'i');
    }
    assert(seq!['r'] != "d"@) by {
        assert("d"@[0] == 'd');
    }
    assert(seq!['r'] != "p"@) by {
        assert("p"@[0] == 'p');
    }
}

/// The optional compact description member text.
pub open spec fn ctext_of(desc: Option<Seq<char>>) -> Seq<char> {
    match desc {
        Some(d) => seq![','] + member_text(seq!['i'], MemVal::VStr(d)),
        None => Seq::<char>::empty(),
    }
}

/// Stepping the tool parser over the emitted `n` and optional `i` members,
/// whatever follows them.
#[verifier::rlimit(100)]
proof fn lemma_ctool_head_gen(
    s: Seq<char>,
    i: int,
    nm: Seq<char>,
    desc: Option<Seq<char>>,
    mdtail: Seq<char>,
)
    requires
        0 <= i <= s.len(),
        s.skip(i) == seq!['{'] + (member_text(seq!['n'], MemVal::VStr(nm)) + (ctext_of(desc) + (
        seq![','] + mdtail))),
    ensures
        ({
            let ed = i + 2 + member_text(seq!['n'], MemVal::VStr(nm)).len() + ctext_of(desc).len();
            &&& crate::decode::parse_tool_rest(s, i + 1, crate::decode::empty_tool_fields())
                == crate::decode::parse_tool_rest(s, ed, acc_nd(nm, desc))
            &&& s.skip(ed) == mdtail
            &&& 0 <= ed <= s.len()
            &&& s.len() == ed + mdtail.len()
        }),
{
    let acc0 = crate::decode::empty_tool_fields();
    let nkey = seq!['n'];
    let dkey = seq!['i'];
    let mn = member_text(nkey, MemVal::VStr(nm));
    let t1 = mn + (ctext_of(desc) + (seq![','] + mdtail));
    assert(s.skip(i) == seq!['{'] + t1);
    assert(s.skip(i).len() == s.len() - i);
    let i0 = i + 1;
    assert(s.skip(i0) == t1) by {
        assert(s.skip(i0) =~= s.skip(i).skip(1));
        lemma_skip_concat(seq!['{'], t1);
    }
    let rest_n = ctext_of(desc) + (seq![','] + mdtail);
    assert(s.skip(i0) =~= mn + rest_n);
    assert(all_plain(nkey));
    lemma_str_member_facts(s, i0, nkey, nm, rest_n);
    let e1 = i0 + mn.len();
    let acc1 = crate::decode::ToolFieldsV { name: Some(nm), ..acc0 };
    lemma_member_n(s, i0 + 4, nm, e1, acc0);
    assert(s.skip(e1) == rest_n) by {
        assert(s.skip(e1) =~= s.skip(i0).skip(mn.len() as int));
        lemma_skip_concat(mn, rest_n);
    }
    let acc2 = acc_nd(nm, desc);
    let e2 = e1 + ctext_of(desc).len();
    if desc is Some {
        let d = desc->0;
        let mi = member_text(dkey, MemVal::VStr(d));
        let rest_i = seq![','] + mdtail;
        assert(s[e1] == ',') by {
            assert(s[e1] == s.skip(e1)[0]);
        }
        lemma_ws_stay(s, e1);
        lemma_tool_unfold_comma(s, i0, nkey, acc0, acc1, e1);
        assert(s.skip(e1 + 1) =~= mi + rest_i) by {
            assert(s.skip(e1 + 1) =~= s.skip(e1).skip(1));
        }
        assert(all_plain(dkey));
        lemma_str_member_facts(s, e1 + 1, dkey, d, rest_i);
        lemma_member_i(s, e1 + 5, d, e2, acc1);
        assert(s.skip(e2) =~= rest_i) by {
            assert(s.skip(e2) =~= s.skip(e1 + 1).skip(mi.len() as int));
        }
        assert(s[e2] == ',') by {
            assert(s[e2] == s.skip(e2)[0]);
        }
        lemma_ws_stay(s, e2);
        lemma_tool_unfold_comma(s, e1 + 1, dkey, acc1, acc2, e2);
        assert(s.skip(e2 + 1) =~= mdtail) by {
            assert(s.skip(e2 + 1) =~= s.skip(e2).skip(1));
        }
    } else {
        assert(acc2 == acc1);
        assert(s[e1] == ',') by {
            assert(s[e1] == s.skip(e1)[0]);
        }
        lemma_ws_stay(s, e1);
        lemma_tool_unfold_comma(s, i0, nkey, acc0, acc1, e1);
        assert(s.skip(e1 + 1) =~= mdtail) by {
            assert(s.skip(e1 + 1) =~= s.skip(e1).skip(1));
        }
    }
}

/// The tool a compact tool object decodes to:/// The tool a compact tool object decodes to: the original name, description
/// and discriminator hex, and the suffixed keys as the required list.
#[verifier::rlimit(100)]
pub proof fn lemma_compact_tool(s: Seq<char>, i: int, t: ToolV, rest: Seq<char>)
    requires
        0 <= i <= s.len(),
        t.discriminator.len() == 8,
        s.skip(i) == compact_tool_json(t) + rest,
    ensures
        crate::decode::parse_tool_rest(s, i + 1, crate::decode::empty_tool_fields()) matches Some(
            p,
        ) && {
            &&& p.1 == i + compact_tool_json(t).len()
            &&& p.0.name == t.name
            &&& p.0.description == t.description
            &&& p.0.discriminator == disc_hex_chars(t.discriminator)
            &&& p.0.required == (if t.accounts.len() == 0 && t.args.len() == 0 {
                Seq::<Seq<char>>::empty()
            } else {
                keys_of(t)
            })
            &&& (t.accounts.len() == 0 && t.args.len() == 0 ==> p.0.params == Seq::<
                (Seq<char>, crate::client::ParamValueV),
            >::empty())
        },
        compact_tool_json(t).len() >= 1 && compact_tool_json(t)[0] == '{',
{
    lemma_compact_tool_shape(t);
    let hex = disc_hex_chars(t.discriminator);
    lemma_disc_hex_plain(t.discriminator);
    let mn = member_text(seq!['n'], MemVal::VStr(t.name));
    let md = member_text(seq!['d'], MemVal::VStr(hex));
    let tailp = if t.accounts.len() == 0 && t.args.len() == 0 {
        seq!['}']
    } else {
        seq![','] + seq!['"', 'p', '"', ':', '{'] + params_text(ps_of(t)) + seq![','] + seq![
            '"',
            'r',
            '"',
            ':',
            '[',
        ] + reqs_text(keys_of(t)) + seq!['}']
    };
    let mdtail = md + (tailp + rest);
    assert(s.skip(i) =~= seq!['{'] + (mn + (ctext_of(t.description) + (seq![','] + mdtail))));
    lemma_ctool_head_gen(s, i, t.name, t.description, mdtail);
    let ed = i + 2 + mn.len() + ctext_of(t.description).len();
    let acc2 = acc_nd(t.name, t.description);
    lemma_str_member_facts(s, ed, seq!['d'], hex, tailp + rest);
    let e3 = ed + md.len();
    let acc3 = crate::decode::ToolFieldsV { discriminator: Some(hex), ..acc2 };
    lemma_member_d(s, ed + 4, hex, e3, acc2);
    assert(s.skip(e3) =~= tailp + rest) by {
        assert(s.skip(e3) =~= s.skip(ed).skip(md.len() as int));
    }
    if t.accounts.len() == 0 && t.args.len() == 0 {
        assert(s[e3] == s.skip(e3)[0]);
        assert(s[e3] == '}');
        lemma_ws_stay(s, e3);
        lemma_tool_unfold_close(s, ed, seq!['d'], acc2, acc3, e3);
        assert(crate::decode::finish_tool(acc3) matches Some(ft) && ft.name == t.name
            && ft.description == t.description && ft.discriminator == hex && ft.required
            =~= Seq::<Seq<char>>::empty() && ft.params =~= Seq::<
            (Seq<char>, crate::client::ParamValueV),
        >::empty());
        assert(e3 + 1 == i + compact_tool_json(t).len());
    } else {
        assert(s[e3] == s.skip(e3)[0]);
        assert(s[e3] == ',');
        lemma_ws_stay(s, e3);
        lemma_tool_unfold_comma(s, ed, seq!['d'], acc2, acc3, e3);
        lemma_compact_tool_pr(s, e3, t, rest, acc3);
        assert(e3 + tailp.len() == i + compact_tool_json(t).len());
    }
}

/// Stepping the tool parser over the emitted `p` and `r` members and the
/// closing brace.
#[verifier::rlimit(100)]
proof fn lemma_compact_tool_pr(
    s: Seq<char>,
    e3: int,
    t: ToolV,
    rest: Seq<char>,
    acc3: crate::decode::ToolFieldsV,
)
    requires
        0 <= e3 < s.len(),
        t.accounts.len() > 0 || t.args.len() > 0,
        s.skip(e3) == (seq![','] + seq!['"', 'p', '"', ':', '{'] + params_text(ps_of(t)) + seq![
            ',',
        ] + seq!['"', 'r', '"', ':', '['] + reqs_text(keys_of(t)) + seq!['}']) + rest,
        acc3.params is None,
        acc3.required is None,
        acc3.name == Some(t.name),
        acc3.discriminator == Some(disc_hex_chars(t.discriminator)),
        acc3.description == (match t.description {
            Some(d) => Some(Some(d)),
            None => None::<Option<Seq<char>>>,
        }),
    ensures
        crate::decode::parse_tool_rest(s, e3 + 1, acc3) matches Some(p) && {
            &&& p.1 == e3 + 12 + params_text(ps_of(t)).len() + reqs_text(keys_of(t)).len() + 1
            &&& p.0.name == t.name
            &&& p.0.description == t.description
            &&& p.0.discriminator == disc_hex_chars(t.discriminator)
            &&& p.0.required == keys_of(t)
        },
{
    assert(s.skip(e3).len() == s.len() - e3);
    let rest_p = seq![','] + seq!['"', 'r', '"', ':', '['] + reqs_text(keys_of(t)) + seq!['}']
        + rest;
    assert(s.skip(e3 + 1) =~= seq!['"'] + seq!['p'] + seq!['"', ':', '{'] + params_text(
        ps_of(t),
    ) + rest_p) by {
        assert(s.skip(e3 + 1) =~= s.skip(e3).skip(1));
    }
    lemma_obj_member_facts(s, e3 + 1, seq!['p'], ps_of(t), rest_p);
    let e4 = e3 + 6 + params_text(ps_of(t)).len();
    let m = crate::decode::parse_params_rest(s, e3 + 6, Seq::empty())->Some_0.0;
    let acc4 = crate::decode::ToolFieldsV { params: Some(m), ..acc3 };
    lemma_member_p(s, e3 + 5, m, e4, acc3);
    assert(s.skip(e4) =~= rest_p) by {
        assert(s.skip(e4) =~= s.skip(e3 + 1).skip(5 + params_text(ps_of(t)).len() as int));
    }
    assert(s[e4] == s.skip(e4)[0]);
    assert(s[e4] == ',');
    lemma_ws_stay(s, e4);
    lemma_tool_unfold_comma(s, e3 + 1, seq!['p'], acc3, acc4, e4);
    let rest_r = seq!['}'] + rest;
    assert(s.skip(e4 + 1) =~= seq!['"'] + seq!['r'] + seq!['"', ':', '['] + reqs_text(
        keys_of(t),
    ) + rest_r) by {
        assert(s.skip(e4 + 1) =~= s.skip(e4).skip(1));
    }
    lemma_arr_member_facts(s, e4 + 1, seq!['r'], keys_of(t), rest_r);
    let e5 = e4 + 6 + reqs_text(keys_of(t)).len();
    let acc5 = crate::decode::ToolFieldsV { required: Some(keys_of(t)), ..acc4 };
    lemma_member_r(s, e4 + 5, keys_of(t), e5, acc4);
    assert(s.skip(e5) =~= rest_r) by {
        assert(s.skip(e5) =~= s.skip(e4 + 1).skip(5 + reqs_text(keys_of(t)).len() as int));
    }
    assert(s[e5] == s.skip(e5)[0]);
    assert(s[e5] == '}');
    lemma_ws_stay(s, e5);
    lemma_tool_unfold_close(s, e4 + 1, seq!['r'], acc4, acc5, e5);
    assert(crate::decode::finish_tool(acc5) matches Some(ft) && ft.name == t.name
        && ft.description == t.description && ft.discriminator == disc_hex_chars(t.discriminator)
        && ft.required == keys_of(t));
}

/// A decoded tool agrees with the model tool on everything the compact form
/// carries exactly: name, description, discriminator hex, required keys.
pub open spec fn tool_matches(pt: crate::client::ParsedToolV, t: ToolV) -> bool {
    &&& pt.name == t.name
    &&& pt.description == t.description
    &&& pt.discriminator == disc_hex_chars(t.discriminator)
    &&& pt.required == (if t.accounts.len() == 0 && t.args.len() == 0 {
        Seq::<Seq<char>>::empty()
    } else {
        keys_of(t)
    })
    &&& (t.accounts.len() == 0 && t.args.len() == 0 ==> pt.params == Seq::<
        (Seq<char>, crate::client::ParamValueV),
    >::empty())
}

/// The text of the tools array's elements followed by its closing bracket.
#[verifier::opaque]
pub open spec fn tools_arr_text(ts: Seq<ToolV>) -> Seq<char> {
    join_comma(ts.map_values(|t: ToolV| compact_tool_json(t))) + seq![']']
}

/// Parsing the emitted tools array recovers each tool's exact fields in
/// order.
#[verifier::rlimit(100)]
pub proof fn lemma_compact_tools(
    s: Seq<char>,
    i: int,
    ts: Seq<ToolV>,
    acc: Seq<crate::client::ParsedToolV>,
    rest: Seq<char>,
)
    requires
        0 <= i <= s.len(),
        forall|k: int| 0 <= k < ts.len() ==> (#[trigger] ts[k]).discriminator.len() == 8,
        s.skip(i) == tools_arr_text(ts) + rest,
    ensures
        crate::decode::parse_tools_rest(s, i, acc) matches Some(p) && {
            &&& p.1 == i + tools_arr_text(ts).len()
            &&& p.0.len() == acc.len() + ts.len()
            &&& forall|k: int| 0 <= k < acc.len() ==> p.0[k] == acc[k]
            &&& forall|k: int|
                0 <= k < ts.len() ==> tool_matches(#[trigger] p.0[acc.len() + k], ts[k])
        },
    decreases ts.len(),
{
    reveal(tools_arr_text);
    let tail = s.skip(i);
    assert(tail.len() == s.len() - i);
    let items = ts.map_values(|t: ToolV| compact_tool_json(t));
    if ts.len() == 0 {
        assert(tools_arr_text(ts) =~= seq![']']);
        assert(s[i] == tail[0]);
        assert(tail[0] == ']');
        lemma_ws_stay(s, i);
    } else {
        let t0 = ts[0];
        let item0 = compact_tool_json(t0);
        let after = if ts.len() == 1 {
            seq![']'] + rest
        } else {
            seq![','] + join_comma(items.skip(1)) + seq![']'] + rest
        };
        assert(join_comma(items) == if items.len() == 1 {
            items[0]
        } else {
            items[0] + ","@ + join_comma(items.skip(1))
        });
        assert(items[0] == item0);
        assert(s.skip(i) =~= item0 + after) by {
            reveal_strlit(",");
        }
        lemma_compact_tool(s, i, t0, after);
        assert(s[i] == tail[0]);
        assert(tail[0] == '{');
        lemma_ws_stay(s, i);
        let j = i + item0.len();
        let pt0 = crate::decode::parse_tool_rest(
            s,
            i + 1,
            crate::decode::empty_tool_fields(),
        )->Some_0.0;
        assert(s.skip(j) =~= after) by {
            assert(s.skip(j) =~= tail.skip(item0.len() as int));
        }
        assert(s[j] == s.skip(j)[0]);
        lemma_ws_stay(s, j);
        let acc2 = acc.push(pt0);
        if ts.len() == 1 {
            assert(s[j] == ']');
            assert(crate::decode::parse_tools_rest(s, i, acc) == Some((acc2, j + 1)));
            assert(forall|k: int| 0 <= k < acc.len() ==> acc2[k] == acc[k]);
            assert(tool_matches(acc2[acc.len() as int], t0));
            assert(tools_arr_text(ts).len() == item0.len() + 1);
        } else {
            assert(s[j] == ',');
            assert(s.skip(j + 1) =~= join_comma(items.skip(1)) + seq![']'] + rest) by {
                assert(s.skip(j + 1) =~= s.skip(j).skip(1));
            }
            assert(items.skip(1) =~= ts.skip(1).map_values(|t: ToolV| compact_tool_json(t)));
            assert(s.skip(j + 1) =~= tools_arr_text(ts.skip(1)) + rest);
            assert(forall|k: int|
                0 <= k < ts.skip(1).len() ==> (#[trigger] ts.skip(1)[k]).discriminator.len() == 8);
            lemma_compact_tools(s, j + 1, ts.skip(1), acc2, rest);
            assert(crate::decode::parse_tools_rest(s, i, acc) == crate::decode::parse_tools_rest(
                s,
                j + 1,
                acc2,
            ));
            let p = crate::decode::parse_tools_rest(s, j + 1, acc2)->Some_0;
            assert(forall|k: int| 0 <= k < acc.len() ==> p.0[k] == acc2[k] && acc2[k] == acc[k]);
            assert(tool_matches(p.0[acc.len() as int], t0)) by {
                assert(p.0[acc.len() as int] == acc2[acc.len() as int]);
            }
            assert forall|k: int| 0 <= k < ts.len() implies tool_matches(
                #[trigger] p.0[acc.len() + k],
                ts[k],
            ) by {
                if k > 0 {
                    assert(tool_matches(p.0[acc2.len() + (k - 1)], ts.skip(1)[k - 1]));
                    assert(ts.skip(1)[k - 1] == ts[k]);
                }
            }
            assert(tools_arr_text(ts).len() == item0.len() + 1 + tools_arr_text(ts.skip(1)).len());
        }
    }
}

/// Reveal the member keys the schema object dispatches on.
proof fn reveal_schema_keys()
    ensures
        "v"@ == seq!['v'],
        "name"@ == seq!['n', 'a', 'm', 'e'],
        "tools"@ == seq!['t', 'o', 'o', 'l', 's'],
        "nextCursor"@.len() == 10,
{
    reveal_strlit("v");
    reveal_strlit("name");
    reveal_strlit("tools");
    reveal_strlit("nextCursor");
    assert("v"@ =~= seq!['v']);
    assert("name"@ =~= seq!['n', 'a', 'm', 'e']);
    assert("tools"@ =~= seq!['t', 'o', 'o', 'l', 's']);
}

/// One unfolding of the schema-object parser over a member followed by a
/// comma.
proof fn lemma_schema_unfold_comma(
    s: Seq<char>,
    p: int,
    key: Seq<char>,
    acc: crate::decode::SchemaFieldsV,
    acc2: crate::decode::SchemaFieldsV,
    e: int,
)
    requires
        0 <= p < s.len(),
        ws_end(s, p) == p,
        s[p] == '"',
        parse_str_body(s, p + 1) == Some((key, p + key.len() + 2)),
        p + key.len() + 2 < s.len(),
        s[p + key.len() + 2] == ':',
        ws_end(s, p + key.len() + 2) == p + key.len() + 2,
        crate::decode::parse_schema_member(s, p + key.len() + 3, key, acc) == Some((acc2, e)),
        p < e < s.len(),
        ws_end(s, e) == e,
        s[e] == ',',
    ensures
        crate::decode::parse_schema_rest(s, p, acc) == crate::decode::parse_schema_rest(
            s,
            e + 1,
            acc2,
        ),
{
}

/// One unfolding of the schema-object parser over the final member and the
/// closing brace.
proof fn lemma_schema_unfold_close(
    s: Seq<char>,
    p: int,
    key: Seq<char>,
    acc: crate::decode::SchemaFieldsV,
    acc2: crate::decode::SchemaFieldsV,
    e: int,
)
    requires
        0 <= p < s.len(),
        ws_end(s, p) == p,
        s[p] == '"',
        parse_str_body(s, p + 1) == Some((key, p + key.len() + 2)),
        p + key.len() + 2 < s.len(),
        s[p + key.len() + 2] == ':',
        ws_end(s, p + key.len() + 2) == p + key.len() + 2,
        crate::decode::parse_schema_member(s, p + key.len() + 3, key, acc) == Some((acc2, e)),
        p < e < s.len(),
        ws_end(s, e) == e,
        s[e] == '}',
    ensures
        crate::decode::parse_schema_rest(s, p, acc) == match crate::decode::finish_schema(acc2) {
            Some(v) => Some((v, e + 1)),
            None => None,
        },
{
}

/// The schema parser takes a `v` member as the version.
proof fn lemma_smember_v(
    s: Seq<char>,
    q: int,
    value: Seq<char>,
    e: int,
    acc: crate::decode::SchemaFieldsV,
)
    requires
        parse_jval(s, q) == Some((JValV::S(value), e)),
        acc.version is None,
    ensures
        crate::decode::parse_schema_member(s, q, seq!['v'], acc) == Some(
            (crate::decode::SchemaFieldsV { version: Some(value), ..acc }, e),
        ),
{
    reveal_schema_keys();
}

/// The schema parser takes a `name` member as the program name.
proof fn lemma_smember_name(
    s: Seq<char>,
    q: int,
    value: Seq<char>,
    e: int,
    acc: crate::decode::SchemaFieldsV,
)
    requires
        parse_jval(s, q) == Some((JValV::S(value), e)),
        acc.name is None,
    ensures
        crate::decode::parse_schema_member(s, q, seq!['n', 'a', 'm', 'e'], acc) == Some(
            (crate::decode::SchemaFieldsV { name: Some(value), ..acc }, e),
        ),
{
    reveal_schema_keys();
    assert(seq!['n', 'a', 'm', 'e'] != "v"@);
}

/// The schema parser takes a `tools` member as the tool list.
proof fn lemma_smember_tools(
    s: Seq<char>,
    q: int,
    ts: Seq<crate::client::ParsedToolV>,
    e: int,
    acc: crate::decode::SchemaFieldsV,
)
    requires
        0 <= q < s.len(),
        ws_end(s, q) == q,
        s[q] == '[',
        crate::decode::parse_tools_rest(s, q + 1, Seq::empty()) == Some((ts, e)),
        acc.tools is None,
    ensures
        crate::decode::parse_schema_member(s, q, seq!['t', 'o', 'o', 'l', 's'], acc) == Some(
            (crate::decode::SchemaFieldsV { tools: Some(ts), ..acc }, e),
        ),
{
    reveal_schema_keys();
    assert(seq!['t', 'o', 'o', 'l', 's'] != "v"@);
    assert(seq!['t', 'o', 'o', 'l', 's'] != "name"@) by {
        assert("name"@[0] == 'n');
    }
}

/// Parse facts for the emitted tools-array member.
#[verifier::rlimit(100)]
proof fn lemma_tools_member_facts(
    s: Seq<char>,
    i: int,
    key: Seq<char>,
    ts: Seq<ToolV>,
    rest: Seq<char>,
)
    requires
        0 <= i <= s.len(),
        all_plain(key),
        forall|k: int| 0 <= k < ts.len() ==> (#[trigger] ts[k]).discriminator.len() == 8,
        s.skip(i) == seq!['"'] + key + seq!['"', ':', '['] + tools_arr_text(ts) + rest,
    ensures
        ws_end(s, i) == i,
        i < s.len() && s[i] == '"',
        parse_str_body(s, i + 1) == Some((key, i + key.len() + 2)),
        ({
            let jc = i + key.len() + 2;
            &&& jc < s.len() && s[jc] == ':' && ws_end(s, jc) == jc
            &&& jc + 1 < s.len() && s[jc + 1] == '[' && ws_end(s, jc + 1) == jc + 1
            &&& crate::decode::parse_tools_rest(s, jc + 2, Seq::empty()) matches Some(p) && {
                &&& p.1 == i + key.len() + 4 + tools_arr_text(ts).len()
                &&& p.0.len() == ts.len()
                &&& forall|k: int| 0 <= k < ts.len() ==> tool_matches(#[trigger] p.0[k], ts[k])
            }
            &&& i + key.len() + 4 + tools_arr_text(ts).len() <= s.len()
        }),
{
    let tail = s.skip(i);
    assert(tail.len() == s.len() - i);
    lemma_escape_id(key);
    assert(tools_arr_text(ts).len() >= 1) by {
        reveal(tools_arr_text);
    }
    assert(i < s.len());
    assert(s[i] == tail[0]);
    assert(tail[0] == '"');
    lemma_ws_stay(s, i);
    assert(s.skip(i + 1) =~= key + seq!['"'] + (seq![':', '['] + tools_arr_text(ts) + rest)) by {
        assert(s.skip(i + 1) =~= tail.skip(1));
    }
    lemma_parse_str_round(s, i + 1, key, seq![':', '['] + tools_arr_text(ts) + rest);
    let jc = i + key.len() + 2;
    assert(s.skip(jc) =~= seq![':', '['] + tools_arr_text(ts) + rest) by {
        assert(s.skip(jc) =~= tail.skip(jc - i));
    }
    assert(s[jc] == s.skip(jc)[0]);
    assert(s[jc + 1] == s.skip(jc)[1]);
    lemma_ws_stay(s, jc);
    lemma_ws_stay(s, jc + 1);
    assert(s.skip(jc + 2) =~= tools_arr_text(ts) + rest) by {
        assert(s.skip(jc + 2) =~= s.skip(jc).skip(2));
    }
    lemma_compact_tools(s, jc + 2, ts, Seq::empty(), rest);
    let p = crate::decode::parse_tools_rest(s, jc + 2, Seq::empty())->Some_0;
    assert forall|k: int| 0 <= k < ts.len() implies tool_matches(#[trigger] p.0[k], ts[k]) by {
        assert(tool_matches(p.0[Seq::<crate::client::ParsedToolV>::empty().len() + k], ts[k]));
    }
}

/// Skipping past the first part of a concatenation leaves the rest.
proof fn lemma_skip_concat(a: Seq<char>, b: Seq<char>)
    ensures
        (a + b).skip(a.len() as int) == b,
        (a + b).len() == a.len() + b.len(),
        a.len() > 0 ==> (a + b)[0] == a[0],
{
    assert((a + b).skip(a.len() as int) =~= b);
}

/// Skipping into the second part of a concatenation skips within it.
proof fn lemma_skip_concat_off(a: Seq<char>, b: Seq<char>, k: int)
    requires
        0 <= k <= b.len(),
    ensures
        (a + b).skip(a.len() + k) == b.skip(k),
{
    assert((a + b).skip(a.len() + k) =~= b.skip(k));
}

/// The compact schema text, laid out member by member.
#[verifier::opaque]
pub open spec fn schema_doc_text(sc: SchemaV) -> Seq<char> {
    seq!['{'] + (member_text(seq!['v'], MemVal::VStr("2024-11-05"@)) + (seq![','] + (member_text(
        seq!['n', 'a', 'm', 'e'],
        MemVal::VStr(sc.name),
    ) + (seq![','] + (seq!['"', 't', 'o', 'o', 'l', 's', '"', ':', '['] + (tools_arr_text(sc.tools)
        + seq!['}']))))))
}

/// The compact encoder's document is the member-by-member text.
#[verifier::rlimit(100)]
proof fn lemma_compact_schema_shape(sc: SchemaV)
    ensures
        compact_schema_json(sc) == schema_doc_text(sc),
{
    reveal(schema_doc_text);
    reveal(tools_arr_text);
    reveal_strlit("{\"v\":\"");
    reveal_strlit("2024-11-05");
    reveal_strlit("\",\"name\":\"");
    reveal_strlit("\",\"tools\":[");
    reveal_strlit("]}");
    assert(all_plain(seq!['v']) && all_plain(seq!['n', 'a', 'm', 'e']));
    lemma_escape_id(seq!['v']);
    lemma_escape_id(seq!['n', 'a', 'm', 'e']);
    assert(all_plain("2024-11-05"@));
    lemma_escape_id("2024-11-05"@);
    assert(compact_schema_json(sc) =~= seq!['{'] + member_text(
        seq!['v'],
        MemVal::VStr("2024-11-05"@),
    ) + seq![','] + member_text(seq!['n', 'a', 'm', 'e'], MemVal::VStr(sc.name)) + seq![','] + seq![
        '"',
        't',
        'o',
        'o',
        'l',
        's',
        '"',
        ':',
        '[',
    ] + tools_arr_text(sc.tools) + seq!['}']);
}

/// Stepping the schema parser over the emitted `v` member.
#[verifier::rlimit(100)]
proof fn lemma_schema_head_v(s: Seq<char>, name: Seq<char>, ttext: Seq<char>)
    requires
        s == seq!['{'] + (member_text(seq!['v'], MemVal::VStr("2024-11-05"@)) + (seq![','] + (
        member_text(seq!['n', 'a', 'm', 'e'], MemVal::VStr(name)) + (seq![','] + (seq![
            '"',
            't',
            'o',
            'o',
            'l',
            's',
            '"',
            ':',
            '[',
        ] + (ttext + seq!['}'])))))),
    ensures
        ({
            let mv = member_text(seq!['v'], MemVal::VStr("2024-11-05"@));
            let mname = member_text(seq!['n', 'a', 'm', 'e'], MemVal::VStr(name));
            let pre9 = seq!['"', 't', 'o', 'o', 'l', 's', '"', ':', '['];
            let e1 = 1int + mv.len();
            let acc1 = crate::decode::SchemaFieldsV {
                version: Some("2024-11-05"@),
                name: None,
                tools: None,
                next_cursor: None,
            };
            &&& crate::decode::parse_schema_rest(s, 1, crate::decode::empty_schema_fields())
                == crate::decode::parse_schema_rest(s, e1 + 1, acc1)
            &&& s.skip(e1 + 1) == member_text(seq!['n', 'a', 'm', 'e'], MemVal::VStr(name)) + (
            seq![','] + (pre9 + (ttext + seq!['}'])))
            &&& 0 <= e1 + 1 <= s.len()
        }),
{
    reveal_schema_keys();
    let acc0 = crate::decode::empty_schema_fields();
    let mv = member_text(seq!['v'], MemVal::VStr("2024-11-05"@));
    let mname = member_text(seq!['n', 'a', 'm', 'e'], MemVal::VStr(name));
    let pre9 = seq!['"', 't', 'o', 'o', 'l', 's', '"', ':', '['];
    let t6 = ttext + seq!['}'];
    let t5 = pre9 + t6;
    let t4 = seq![','] + t5;
    let t3 = mname + t4;
    let t2 = seq![','] + t3;
    let t1 = mv + t2;
    assert(s == seq!['{'] + t1);
    assert(s[0] == '{') by {
        lemma_skip_concat(seq!['{'], t1);
    }
    lemma_ws_stay(s, 0);
    assert(s.skip(1) == t1) by {
        lemma_skip_concat(seq!['{'], t1);
    }
    lemma_str_member_facts(s, 1, seq!['v'], "2024-11-05"@, t2);
    let e1: int = 1int + mv.len();
    let acc1 = crate::decode::SchemaFieldsV { version: Some("2024-11-05"@), ..acc0 };
    lemma_smember_v(s, 5, "2024-11-05"@, e1, acc0);
    assert(s.skip(e1) == t2) by {
        lemma_skip_concat_off(seq!['{'], t1, e1 - 1);
        lemma_skip_concat(mv, t2);
    }
    assert(s[e1] == ',') by {
        lemma_skip_concat(seq![','], t3);
        assert(s[e1] == s.skip(e1)[0]);
    }
    lemma_ws_stay(s, e1);
    lemma_schema_unfold_comma(s, 1, seq!['v'], acc0, acc1, e1);
    assert(s.skip(e1 + 1) == t3) by {
        lemma_skip_concat_off(seq!['{'], t1, e1);
        lemma_skip_concat_off(mv, t2, 1);
        assert(t2.skip(1) =~= t3);
    }
}

/// Stepping the schema parser over the emitted `name` member.
#[verifier::rlimit(100)]
proof fn lemma_schema_name_step(
    s: Seq<char>,
    p: int,
    name: Seq<char>,
    after: Seq<char>,
    acc1: crate::decode::SchemaFieldsV,
)
    requires
        0 <= p <= s.len(),
        s.skip(p) == member_text(seq!['n', 'a', 'm', 'e'], MemVal::VStr(name)) + after,
        after.len() >= 1,
        after[0] == ',',
        acc1.name is None,
    ensures
        ({
            let e = p + member_text(seq!['n', 'a', 'm', 'e'], MemVal::VStr(name)).len();
            &&& crate::decode::parse_schema_rest(s, p, acc1) == crate::decode::parse_schema_rest(
                s,
                e + 1,
                crate::decode::SchemaFieldsV { name: Some(name), ..acc1 },
            )
            &&& s.skip(e + 1) == after.skip(1)
            &&& 0 <= e + 1 <= s.len()
            &&& s.len() == e + after.len()
        }),
{
    let mname = member_text(seq!['n', 'a', 'm', 'e'], MemVal::VStr(name));
    assert(s.skip(p).len() == s.len() - p);
    lemma_str_member_facts(s, p, seq!['n', 'a', 'm', 'e'], name, after);
    let e = p + mname.len();
    let acc2 = crate::decode::SchemaFieldsV { name: Some(name), ..acc1 };
    lemma_smember_name(s, p + 7, name, e, acc1);
    assert(s.skip(e) == after) by {
        assert(s.skip(e) =~= s.skip(p).skip(mname.len() as int));
        lemma_skip_concat(mname, after);
    }
    assert(s[e] == ',') by {
        assert(s[e] == s.skip(e)[0]);
    }
    lemma_ws_stay(s, e);
    lemma_schema_unfold_comma(s, p, seq!['n', 'a', 'm', 'e'], acc1, acc2, e);
    assert(s.skip(e + 1) =~= after.skip(1));
}

/// Stepping the schema parser over the `tools` member and the closing
/// brace.
#[verifier::rlimit(100)]
proof fn lemma_schema_tools_close(
    s: Seq<char>,
    p: int,
    ts: Seq<ToolV>,
    acc2: crate::decode::SchemaFieldsV,
)
    requires
        0 <= p <= s.len(),
        forall|k: int| 0 <= k < ts.len() ==> (#[trigger] ts[k]).discriminator.len() == 8,
        s.skip(p) == seq!['"', 't', 'o', 'o', 'l', 's', '"', ':', '['] + (tools_arr_text(ts)
            + seq!['}']),
        acc2.tools is None,
        acc2.version is Some,
        acc2.name is Some,
    ensures
        crate::decode::parse_schema_rest(s, p, acc2) matches Some(pr) && {
            &&& pr.1 == s.len()
            &&& pr.0.version == acc2.version->0
            &&& pr.0.name == acc2.name->0
            &&& pr.0.next_cursor == (match acc2.next_cursor {
                Some(o) => o,
                None => None::<Seq<char>>,
            })
            &&& pr.0.tools.len() == ts.len()
            &&& forall|k: int|
                0 <= k < ts.len() ==> tool_matches(#[trigger] pr.0.tools[k], ts[k])
        },
{
    assert(s.skip(p).len() == s.len() - p);
    assert(s.skip(p) =~= seq!['"'] + seq!['t', 'o', 'o', 'l', 's'] + seq!['"', ':', '[']
        + tools_arr_text(ts) + seq!['}']);
    lemma_tools_member_facts(s, p, seq!['t', 'o', 'o', 'l', 's'], ts, seq!['}']);
    let e3 = p + 9 + tools_arr_text(ts).len();
    let tsv = crate::decode::parse_tools_rest(s, p + 9, Seq::empty())->Some_0.0;
    let acc3 = crate::decode::SchemaFieldsV { tools: Some(tsv), ..acc2 };
    lemma_smember_tools(s, p + 8, tsv, e3, acc2);
    assert(s.skip(e3) =~= seq!['}']) by {
        assert(s.skip(e3) =~= s.skip(p).skip(9 + tools_arr_text(ts).len() as int));
    }
    assert(s[e3] == s.skip(e3)[0]);
    assert(s[e3] == '}');
    lemma_ws_stay(s, e3);
    lemma_schema_unfold_close(s, p, seq!['t', 'o', 'o', 'l', 's'], acc2, acc3, e3);
    assert(e3 + 1 == s.len());
}

/// The decoded tool reconstructs the original: same name and description,
/// a discriminator hex string that decodes back to the original 8 bytes,
/// and the suffixed keys as the required parameters.
pub open spec fn round_tool_ok(pt: crate::client::ParsedToolV, t: ToolV) -> bool {
    &&& pt.name == t.name
    &&& pt.description == t.description
    &&& is_hex_string(pt.discriminator)
    &&& hex_bytes(pt.discriminator).len() == 8
    &&& hex_bytes(pt.discriminator) == t.discriminator
    &&& crate::client::required_params_spec(pt) == keys_of(t)
}

/// Parsing the emitted compact document succeeds and carries the decoded
/// tools.
#[verifier::rlimit(100)]
proof fn lemma_compact_schema_parsed(sc: SchemaV)
    requires
        forall|k: int| 0 <= k < sc.tools.len() ==> (#[trigger] sc.tools[k]).discriminator.len()
            == 8,
    ensures
        crate::decode::parse_schema_doc(schema_doc_text(sc)) matches Some(ps) && {
            &&& ps.version == "2024-11-05"@
            &&& ps.name == sc.name
            &&& ps.next_cursor is None
            &&& ps.tools.len() == sc.tools.len()
            &&& forall|k: int|
                0 <= k < sc.tools.len() ==> tool_matches(#[trigger] ps.tools[k], sc.tools[k])
        },
{
    let s = schema_doc_text(sc);
    let mv = member_text(seq!['v'], MemVal::VStr("2024-11-05"@));
    let mname = member_text(seq!['n', 'a', 'm', 'e'], MemVal::VStr(sc.name));
    let pre9 = seq!['"', 't', 'o', 'o', 'l', 's', '"', ':', '['];
    let ttext = tools_arr_text(sc.tools);
    assert(s == seq!['{'] + (mv + (seq![','] + (mname + (seq![','] + (pre9 + (ttext + seq![
        '}',
    ]))))))) by {
        reveal(schema_doc_text);
    }
    lemma_schema_head_v(s, sc.name, ttext);
    let e1: int = 1int + mv.len();
    let acc1 = crate::decode::SchemaFieldsV {
        version: Some("2024-11-05"@),
        name: None,
        tools: None,
        next_cursor: None,
    };
    let after_name = seq![','] + (pre9 + (ttext + seq!['}']));
    lemma_schema_name_step(s, e1 + 1, sc.name, after_name, acc1);
    let e2: int = e1 + 1int + mname.len();
    let acc2 = crate::decode::SchemaFieldsV { name: Some(sc.name), ..acc1 };
    assert(s.skip(e2 + 1) == after_name.skip(1));
    assert(after_name.skip(1) == pre9 + (ttext + seq!['}'])) by {
        lemma_skip_concat_off(seq![','], pre9 + (ttext + seq!['}']), 0);
        assert((pre9 + (ttext + seq!['}'])).skip(0) =~= pre9 + (ttext + seq!['}']));
    }
    lemma_schema_tools_close(s, e2 + 1, sc.tools, acc2);
    let pr = crate::decode::parse_schema_rest(s, e2 + 1, acc2)->Some_0;
    assert(s[0] == '{') by {
        assert(s.skip(0) =~= s);
        assert(s[0] == s.skip(0)[0]);
    }
    lemma_ws_stay(s, 0);
    assert(ws_end(s, pr.1) == pr.1);
    assert(crate::decode::parse_schema_doc(s) == Some(pr.0));
}

/// Round trip of the compact document: building a schema, encoding it
/// compactly and decoding the text reconstructs every tool's name,
/// description, discriminator and required-parameter list.
///
/// The reconstructed discriminator decodes from hex back to the original 8
/// bytes, and the decoder's required-parameter accessor yields exactly the
/// suffixed account keys followed by the argument names.
#[verifier::rlimit(100)]
pub proof fn lemma_compact_round_trip(sc: SchemaV)
    requires
        forall|k: int| 0 <= k < sc.tools.len() ==> (#[trigger] sc.tools[k]).discriminator.len()
            == 8,
    ensures
        crate::decode::parse_schema_doc(compact_schema_json(sc)) matches Some(ps) && {
            &&& ps.version == "2024-11-05"@
            &&& ps.name == sc.name
            &&& ps.next_cursor is None
            &&& ps.tools.len() == sc.tools.len()
            &&& forall|k: int|
                0 <= k < sc.tools.len() ==> #[trigger] round_tool_ok(ps.tools[k], sc.tools[k])
        },
{
    lemma_compact_schema_parsed(sc);
    lemma_compact_schema_shape(sc);
    let ps = crate::decode::parse_schema_doc(schema_doc_text(sc))->Some_0;
    assert(crate::decode::parse_schema_doc(compact_schema_json(sc)) == Some(ps));
    assert forall|k: int| 0 <= k < sc.tools.len() implies #[trigger] round_tool_ok(
        ps.tools[k],
        sc.tools[k],
    ) by {
        let pt = ps.tools[k];
        let t = sc.tools[k];
        assert(tool_matches(pt, t));
        lemma_hex_round(t.discriminator);
        if t.accounts.len() == 0 && t.args.len() == 0 {
            assert(keys_of(t) =~= Seq::<Seq<char>>::empty());
            if pt.required.len() == 0 {
                assert(crate::client::required_params_spec(pt) == pt.params.map_values(
                    |p: (Seq<char>, crate::client::ParamValueV)| p.0,
                ));
                assert(pt.params.map_values(
                    |p: (Seq<char>, crate::client::ParamValueV)| p.0,
                ) =~= Seq::<Seq<char>>::empty());
            }
        } else {
            assert(keys_of(t).len() > 0);
        }
    }
}

/// The members a verbose account parameter object carries.
pub open spec fn acc_ms(a: AccountMetaV) -> Seq<(Seq<char>, MemVal)> {
    seq![("type"@, MemVal::VStr("pubkey"@))] + (if a.is_signer {
        seq![("signer"@, MemVal::VTrue)]
    } else {
        Seq::<(Seq<char>, MemVal)>::empty()
    }) + (if a.is_writable {
        seq![("writable"@, MemVal::VTrue)]
    } else {
        Seq::<(Seq<char>, MemVal)>::empty()
    }) + (match a.description {
        Some(d) => seq![("description"@, MemVal::VStr(d))],
        None => Seq::<(Seq<char>, MemVal)>::empty(),
    })
}

/// The members a verbose argument parameter object carries.
pub open spec fn arg_ms(g: ArgV) -> Seq<(Seq<char>, MemVal)> {
    seq![("type"@, MemVal::VStr(crate::schema::compact_name_spec(g.arg_type)))] + (
    match g.description {
        Some(d) => seq![("description"@, MemVal::VStr(d))],
        None => Seq::<(Seq<char>, MemVal)>::empty(),
    })
}

/// The verbose parameter map of a tool, as generic key/value pairs.
pub open spec fn verbose_ps_of(t: ToolV) -> Seq<(Seq<char>, PValT)> {
    t.accounts.map_values(|a: AccountMetaV| (a.name, PValT::PObj(acc_ms(a)))) + t.args.map_values(
        |g: ArgV| (g.name, PValT::PObj(arg_ms(g))),
    )
}

/// Reveal the literals the verbose parameter members use.
proof fn reveal_verbose_lits()
    ensures
        escape_str("type"@) == "type"@,
        escape_str("signer"@) == "signer"@,
        escape_str("writable"@) == "writable"@,
        escape_str("description"@) == "description"@,
        escape_str("pubkey"@) == "pubkey"@,
        "type"@.len() == 4,
        "signer"@.len() == 6,
        "writable"@.len() == 8,
        "description"@.len() == 11,
        "pubkey"@.len() == 6,
{
    reveal_strlit("type");
    reveal_strlit("signer");
    reveal_strlit("writable");
    reveal_strlit("description");
    reveal_strlit("pubkey");
    lemma_escape_id("type"@);
    lemma_escape_id("signer"@);
    lemma_escape_id("writable"@);
    lemma_escape_id("description"@);
    lemma_escape_id("pubkey"@);
}

/// The generic rendering of one verbose account entry equals the encoder's.
#[verifier::rlimit(100)]
proof fn lemma_verbose_acc_item_eq(a: AccountMetaV)
    ensures
        seq!['"'] + escape_str(a.name) + seq!['"', ':'] + pval_text(PValT::PObj(acc_ms(a)))
            == verbose_acc_item(a),
{
    reveal_verbose_lits();
    reveal_strlit("type");
    reveal_strlit("signer");
    reveal_strlit("writable");
    reveal_strlit("description");
    reveal_strlit("pubkey");
    reveal_strlit("\"");
    reveal_strlit("}");
    reveal_strlit("\":{\"type\":\"pubkey\"");
    reveal_strlit(",\"signer\":true");
    reveal_strlit(",\"writable\":true");
    reveal_strlit(",\"description\":\"");
    reveal_strlit(",");
    reveal_with_fuel(join_comma, 5);
    let mt = member_text("type"@, MemVal::VStr("pubkey"@));
    let msg = member_text("signer"@, MemVal::VTrue);
    let mw = member_text("writable"@, MemVal::VTrue);
    let ms = acc_ms(a);
    match a.description {
        Some(d) => {
            let md = member_text("description"@, MemVal::VStr(d));
            if a.is_signer && a.is_writable {
                assert(ms =~= seq![
                    ("type"@, MemVal::VStr("pubkey"@)),
                    ("signer"@, MemVal::VTrue),
                    ("writable"@, MemVal::VTrue),
                    ("description"@, MemVal::VStr(d)),
                ]);
                assert(seq!['"'] + escape_str(a.name) + seq!['"', ':'] + pval_text(
                    PValT::PObj(ms),
                ) =~= verbose_acc_item(a));
            } else if a.is_signer {
                assert(ms =~= seq![
                    ("type"@, MemVal::VStr("pubkey"@)),
                    ("signer"@, MemVal::VTrue),
                    ("description"@, MemVal::VStr(d)),
                ]);
                assert(seq!['"'] + escape_str(a.name) + seq!['"', ':'] + pval_text(
                    PValT::PObj(ms),
                ) =~= verbose_acc_item(a));
            } else if a.is_writable {
                assert(ms =~= seq![
                    ("type"@, MemVal::VStr("pubkey"@)),
                    ("writable"@, MemVal::VTrue),
                    ("description"@, MemVal::VStr(d)),
                ]);
                assert(seq!['"'] + escape_str(a.name) + seq!['"', ':'] + pval_text(
                    PValT::PObj(ms),
                ) =~= verbose_acc_item(a));
            } else {
                assert(ms =~= seq![
                    ("type"@, MemVal::VStr("pubkey"@)),
                    ("description"@, MemVal::VStr(d)),
                ]);
                assert(seq!['"'] + escape_str(a.name) + seq!['"', ':'] + pval_text(
                    PValT::PObj(ms),
                ) =~= verbose_acc_item(a));
            }
        },
        None => {
            if a.is_signer && a.is_writable {
                assert(ms =~= seq![
                    ("type"@, MemVal::VStr("pubkey"@)),
                    ("signer"@, MemVal::VTrue),
                    ("writable"@, MemVal::VTrue),
                ]);
                assert(seq!['"'] + escape_str(a.name) + seq!['"', ':'] + pval_text(
                    PValT::PObj(ms),
                ) =~= verbose_acc_item(a));
            } else if a.is_signer {
                assert(ms =~= seq![("type"@, MemVal::VStr("pubkey"@)), ("signer"@, MemVal::VTrue)]);
                assert(seq!['"'] + escape_str(a.name) + seq!['"', ':'] + pval_text(
                    PValT::PObj(ms),
                ) =~= verbose_acc_item(a));
            } else if a.is_writable {
                assert(ms =~= seq![
                    ("type"@, MemVal::VStr("pubkey"@)),
                    ("writable"@, MemVal::VTrue),
                ]);
                assert(seq!['"'] + escape_str(a.name) + seq!['"', ':'] + pval_text(
                    PValT::PObj(ms),
                ) =~= verbose_acc_item(a));
            } else {
                assert(ms =~= seq![("type"@, MemVal::VStr("pubkey"@))]);
                assert(seq!['"'] + escape_str(a.name) + seq!['"', ':'] + pval_text(
                    PValT::PObj(ms),
                ) =~= verbose_acc_item(a));
            }
        },
    }
}

/// The generic rendering of one verbose argument entry equals the encoder's.
#[verifier::rlimit(100)]
proof fn lemma_verbose_arg_item_eq(g: ArgV)
    ensures
        seq!['"'] + escape_str(g.name) + seq!['"', ':'] + pval_text(PValT::PObj(arg_ms(g)))
            == verbose_arg_item(g),
{
    reveal_verbose_lits();
    reveal_strlit("type");
    reveal_strlit("description");
    reveal_strlit("\"");
    reveal_strlit("}");
    reveal_strlit("\":{\"type\":\"");
    reveal_strlit(",\"description\":\"");
    reveal_strlit(",");
    let tok = crate::schema::compact_name_spec(g.arg_type);
    lemma_type_token_plain(g.arg_type);
    reveal_with_fuel(join_comma, 5);
    let mt = member_text("type"@, MemVal::VStr(tok));
    let ms = arg_ms(g);
    match g.description {
        Some(d) => {
            let md = member_text("description"@, MemVal::VStr(d));
            assert(ms =~= seq![("type"@, MemVal::VStr(tok)), ("description"@, MemVal::VStr(d))]);
            assert(seq!['"'] + escape_str(g.name) + seq!['"', ':'] + pval_text(PValT::PObj(ms))
                =~= verbose_arg_item(g));
        },
        None => {
            assert(ms =~= seq![("type"@, MemVal::VStr(tok))]);
            assert(seq!['"'] + escape_str(g.name) + seq!['"', ':'] + pval_text(PValT::PObj(ms))
                =~= verbose_arg_item(g));
        },
    }
}

/// The generic verbose parameter-map text equals what the encoder emits.
proof fn lemma_verbose_params_text(t: ToolV)
    ensures
        params_text(verbose_ps_of(t)) == join_comma(verbose_params(t)) + seq!['}'],
{
    let items = verbose_ps_of(t).map_values(
        |p: (Seq<char>, PValT)| seq!['"'] + escape_str(p.0) + seq!['"', ':'] + pval_text(p.1),
    );
    assert(items =~= verbose_params(t)) by {
        assert forall|i: int| 0 <= i < items.len() implies items[i] == verbose_params(t)[i] by {
            if i < t.accounts.len() {
                lemma_verbose_acc_item_eq(t.accounts[i]);
            } else {
                lemma_verbose_arg_item_eq(t.args[i - t.accounts.len()]);
            }
        }
    }
}

/// The tool parser takes a full `name` member as the tool's name.
proof fn lemma_member_name_f(
    s: Seq<char>,
    q: int,
    value: Seq<char>,
    e: int,
    acc: crate::decode::ToolFieldsV,
)
    requires
        parse_jval(s, q) == Some((JValV::S(value), e)),
        acc.name is None,
    ensures
        crate::decode::parse_tool_member(s, q, seq!['n', 'a', 'm', 'e'], acc) == Some(
            (crate::decode::ToolFieldsV { name: Some(value), ..acc }, e),
        ),
{
    reveal_tool_keys();
    assert(seq!['n', 'a', 'm', 'e'] =~= "name"@) by {
        reveal_strlit("name");
    }
}

/// The tool parser takes a full `description` member as the description.
proof fn lemma_member_desc_f(
    s: Seq<char>,
    q: int,
    value: Seq<char>,
    e: int,
    acc: crate::decode::ToolFieldsV,
)
    requires
        parse_jval(s, q) == Some((JValV::S(value), e)),
        acc.description is None,
    ensures
        crate::decode::parse_tool_member(
            s,
            q,
            seq!['d', 'e', 's', 'c', 'r', 'i', 'p', 't', 'i', 'o', 'n'],
            acc,
        ) == Some((crate::decode::ToolFieldsV { description: Some(Some(value)), ..acc }, e)),
{
    reveal_tool_keys();
    assert(seq!['d', 'e', 's', 'c', 'r', 'i', 'p', 't', 'i', 'o', 'n'] =~= "description"@) by {
        reveal_strlit("description");
    }
}

/// The tool parser takes a full `discriminator` member as the hex string.
proof fn lemma_member_disc_f(
    s: Seq<char>,
    q: int,
    value: Seq<char>,
    e: int,
    acc: crate::decode::ToolFieldsV,
)
    requires
        parse_jval(s, q) == Some((JValV::S(value), e)),
        acc.discriminator is None,
    ensures
        crate::decode::parse_tool_member(
            s,
            q,
            seq!['d', 'i', 's', 'c', 'r', 'i', 'm', 'i', 'n', 'a', 't', 'o', 'r'],
            acc,
        ) == Some((crate::decode::ToolFieldsV { discriminator: Some(value), ..acc }, e)),
{
    reveal_tool_keys();
    assert(seq!['d', 'i', 's', 'c', 'r', 'i', 'm', 'i', 'n', 'a', 't', 'o', 'r']
        =~= "discriminator"@) by {
        reveal_strlit("discriminator");
    }
}

/// The tool parser takes a full `parameters` member as the parameter map.
proof fn lemma_member_params_f(
    s: Seq<char>,
    q: int,
    m: Seq<(Seq<char>, crate::client::ParamValueV)>,
    e: int,
    acc: crate::decode::ToolFieldsV,
)
    requires
        0 <= q < s.len(),
        ws_end(s, q) == q,
        s[q] == '{',
        crate::decode::parse_params_rest(s, q + 1, Seq::empty()) == Some((m, e)),
        acc.params is None,
    ensures
        crate::decode::parse_tool_member(
            s,
            q,
            seq!['p', 'a', 'r', 'a', 'm', 'e', 't', 'e', 'r', 's'],
            acc,
        ) == Some((crate::decode::ToolFieldsV { params: Some(m), ..acc }, e)),
{
    reveal_tool_keys();
    assert(seq!['p', 'a', 'r', 'a', 'm', 'e', 't', 'e', 'r', 's'] =~= "parameters"@) by {
        reveal_strlit("parameters");
    }
}

/// The verbose tool text, laid out member by member.
#[verifier::rlimit(100)]
proof fn lemma_verbose_tool_shape(t: ToolV)
    requires
        t.discriminator.len() == 8,
    ensures
        verbose_tool_json(t) == seq!['{'] + member_text(
            seq!['n', 'a', 'm', 'e'],
            MemVal::VStr(t.name),
        ) + (match t.description {
            Some(d) => seq![','] + member_text(
                seq!['d', 'e', 's', 'c', 'r', 'i', 'p', 't', 'i', 'o', 'n'],
                MemVal::VStr(d),
            ),
            None => Seq::<char>::empty(),
        }) + seq![','] + member_text(
            seq!['d', 'i', 's', 'c', 'r', 'i', 'm', 'i', 'n', 'a', 't', 'o', 'r'],
            MemVal::VStr(disc_hex_chars(t.discriminator)),
        ) + (if t.accounts.len() == 0 && t.args.len() == 0 {
            seq!['}']
        } else {
            seq![','] + seq!['"', 'p', 'a', 'r', 'a', 'm', 'e', 't', 'e', 'r', 's', '"', ':', '{']
                + params_text(verbose_ps_of(t)) + seq!['}']
        }),
{
    reveal(verbose_tool_json);
    reveal_strlit("{\"name\":\"");
    reveal_strlit("\"");
    reveal_strlit(",\"description\":\"");
    reveal_strlit(",\"discriminator\":\"");
    reveal_strlit(",\"parameters\":{");
    reveal_strlit("}");
    reveal_strlit("name");
    reveal_strlit("description");
    reveal_strlit("discriminator");
    reveal_strlit("parameters");
    assert(all_plain(seq!['n', 'a', 'm', 'e'])
        && all_plain(seq!['d', 'e', 's', 'c', 'r', 'i', 'p', 't', 'i', 'o', 'n'])
        && all_plain(seq!['d', 'i', 's', 'c', 'r', 'i', 'm', 'i', 'n', 'a', 't', 'o', 'r']));
    lemma_escape_id(seq!['n', 'a', 'm', 'e']);
    lemma_escape_id(seq!['d', 'e', 's', 'c', 'r', 'i', 'p', 't', 'i', 'o', 'n']);
    lemma_escape_id(seq!['d', 'i', 's', 'c', 'r', 'i', 'm', 'i', 'n', 'a', 't', 'o', 'r']);
    lemma_disc_hex_plain(t.discriminator);
    lemma_escape_id(disc_hex_chars(t.discriminator));
    lemma_verbose_params_text(t);
    let mn = member_text(seq!['n', 'a', 'm', 'e'], MemVal::VStr(t.name));
    let md = member_text(
        seq!['d', 'i', 's', 'c', 'r', 'i', 'm', 'i', 'n', 'a', 't', 'o', 'r'],
        MemVal::VStr(disc_hex_chars(t.discriminator)),
    );
    if t.accounts.len() == 0 && t.args.len() == 0 {
        match t.description {
            Some(d) => {
                assert(verbose_tool_json(t) =~= seq!['{'] + mn + (seq![','] + member_text(
                    seq!['d', 'e', 's', 'c', 'r', 'i', 'p', 't', 'i', 'o', 'n'],
                    MemVal::VStr(d),
                )) + seq![','] + md + seq!['}']);
            },
            None => {
                assert(verbose_tool_json(t) =~= seq!['{'] + mn + Seq::<char>::empty() + seq![',']
                    + md + seq!['}']);
            },
        }
    } else {
        let tailp = seq![','] + seq![
            '"',
            'p',
            'a',
            'r',
            'a',
            'm',
            'e',
            't',
            'e',
            'r',
            's',
            '"',
            ':',
            '{',
        ] + params_text(verbose_ps_of(t)) + seq!['}'];
        match t.description {
            Some(d) => {
                assert(verbose_tool_json(t) =~= seq!['{'] + mn + (seq![','] + member_text(
                    seq!['d', 'e', 's', 'c', 'r', 'i', 'p', 't', 'i', 'o', 'n'],
                    MemVal::VStr(d),
                )) + seq![','] + md + tailp);
            },
            None => {
                assert(verbose_tool_json(t) =~= seq!['{'] + mn + Seq::<char>::empty() + seq![',']
                    + md + tailp);
            },
        }
    }
}

/// The tool accumulator after a name and optional description.
pub open spec fn acc_nd(nm: Seq<char>, desc: Option<Seq<char>>) -> crate::decode::ToolFieldsV {
    crate::decode::ToolFieldsV {
        name: Some(nm),
        description: match desc {
            Some(d) => Some(Some(d)),
            None => None,
        },
        discriminator: None,
        params: None,
        required: None,
    }
}

/// The optional description member text.
pub open spec fn dtext_of(desc: Option<Seq<char>>) -> Seq<char> {
    match desc {
        Some(d) => seq![','] + member_text(
            seq!['d', 'e', 's', 'c', 'r', 'i', 'p', 't', 'i', 'o', 'n'],
            MemVal::VStr(d),
        ),
        None => Seq::<char>::empty(),
    }
}

/// Stepping the verbose tool parser over the `name` and optional
/// `description` members, whatever follows them.
#[verifier::rlimit(100)]
proof fn lemma_vtool_head_gen(
    s: Seq<char>,
    i: int,
    nm: Seq<char>,
    desc: Option<Seq<char>>,
    mdtail: Seq<char>,
)
    requires
        0 <= i <= s.len(),
        s.skip(i) == seq!['{'] + (member_text(seq!['n', 'a', 'm', 'e'], MemVal::VStr(nm)) + (
        dtext_of(desc) + (seq![','] + mdtail))),
    ensures
        ({
            let ed = i + 2 + member_text(seq!['n', 'a', 'm', 'e'], MemVal::VStr(nm)).len()
                + dtext_of(desc).len();
            &&& crate::decode::parse_tool_rest(s, i + 1, crate::decode::empty_tool_fields())
                == crate::decode::parse_tool_rest(s, ed, acc_nd(nm, desc))
            &&& s.skip(ed) == mdtail
            &&& 0 <= ed <= s.len()
            &&& s.len() == ed + mdtail.len()
        }),
{
    let acc0 = crate::decode::empty_tool_fields();
    let nkey = seq!['n', 'a', 'm', 'e'];
    let dkey = seq!['d', 'e', 's', 'c', 'r', 'i', 'p', 't', 'i', 'o', 'n'];
    let mn = member_text(nkey, MemVal::VStr(nm));
    let t1 = mn + (dtext_of(desc) + (seq![','] + mdtail));
    assert(s.skip(i) == seq!['{'] + t1);
    assert(s.skip(i).len() == s.len() - i);
    let i0 = i + 1;
    assert(s.skip(i0) == t1) by {
        assert(s.skip(i0) =~= s.skip(i).skip(1));
        lemma_skip_concat(seq!['{'], t1);
    }
    assert(s[i] == '{') by {
        lemma_skip_concat(seq!['{'], t1);
        assert(s[i] == s.skip(i)[0]);
    }
    let rest_n = dtext_of(desc) + (seq![','] + mdtail);
    assert(s.skip(i0) =~= mn + rest_n);
    assert(all_plain(nkey)) by {
        reveal_strlit("name");
    }
    lemma_str_member_facts(s, i0, nkey, nm, rest_n);
    let e1 = i0 + mn.len();
    let acc1 = crate::decode::ToolFieldsV { name: Some(nm), ..acc0 };
    lemma_member_name_f(s, i0 + 7, nm, e1, acc0);
    assert(s.skip(e1) == rest_n) by {
        assert(s.skip(e1) =~= s.skip(i0).skip(mn.len() as int));
        lemma_skip_concat(mn, rest_n);
    }
    let acc2 = acc_nd(nm, desc);
    let e2 = e1 + dtext_of(desc).len();
    if desc is Some {
        let d = desc->0;
        let mi = member_text(dkey, MemVal::VStr(d));
        let rest_i = seq![','] + mdtail;
        assert(s[e1] == ',') by {
            assert(s[e1] == s.skip(e1)[0]);
        }
        lemma_ws_stay(s, e1);
        lemma_tool_unfold_comma(s, i0, nkey, acc0, acc1, e1);
        assert(s.skip(e1 + 1) =~= mi + rest_i) by {
            assert(s.skip(e1 + 1) =~= s.skip(e1).skip(1));
        }
        assert(all_plain(dkey)) by {
            reveal_strlit("description");
        }
        lemma_str_member_facts(s, e1 + 1, dkey, d, rest_i);
        lemma_member_desc_f(s, e1 + 15, d, e2, acc1);
        assert(s.skip(e2) =~= rest_i) by {
            assert(s.skip(e2) =~= s.skip(e1 + 1).skip(mi.len() as int));
        }
        assert(s[e2] == ',') by {
            assert(s[e2] == s.skip(e2)[0]);
        }
        lemma_ws_stay(s, e2);
        lemma_tool_unfold_comma(s, e1 + 1, dkey, acc1, acc2, e2);
        assert(s.skip(e2 + 1) =~= mdtail) by {
            assert(s.skip(e2 + 1) =~= s.skip(e2).skip(1));
        }
    } else {
        assert(acc2 == acc1);
        assert(s[e1] == ',') by {
            assert(s[e1] == s.skip(e1)[0]);
        }
        lemma_ws_stay(s, e1);
        lemma_tool_unfold_comma(s, i0, nkey, acc0, acc1, e1);
        assert(s.skip(e1 + 1) =~= mdtail) by {
            assert(s.skip(e1 + 1) =~= s.skip(e1).skip(1));
        }
    }
}

/// A verbose tool object parses, ending just past its closing brace, and/// A verbose tool object parses, ending just past its closing brace, and
/// reconstructs the tool's name, description and discriminator hex.
#[verifier::rlimit(100)]
pub proof fn lemma_verbose_tool(s: Seq<char>, i: int, t: ToolV, rest: Seq<char>)
    requires
        0 <= i <= s.len(),
        t.discriminator.len() == 8,
        s.skip(i) == verbose_tool_json(t) + rest,
    ensures
        crate::decode::parse_tool_rest(s, i + 1, crate::decode::empty_tool_fields()) matches Some(
            p,
        ) && {
            &&& p.1 == i + verbose_tool_json(t).len()
            &&& p.0.name == t.name
            &&& p.0.description == t.description
            &&& p.0.discriminator == disc_hex_chars(t.discriminator)
        },
        verbose_tool_json(t).len() >= 1 && verbose_tool_json(t)[0] == '{',
{
    lemma_verbose_tool_shape(t);
    let hex = disc_hex_chars(t.discriminator);
    lemma_disc_hex_plain(t.discriminator);
    let ckey = seq!['d', 'i', 's', 'c', 'r', 'i', 'm', 'i', 'n', 'a', 't', 'o', 'r'];
    let mn = member_text(seq!['n', 'a', 'm', 'e'], MemVal::VStr(t.name));
    let md = member_text(ckey, MemVal::VStr(hex));
    let tailp = if t.accounts.len() == 0 && t.args.len() == 0 {
        seq!['}']
    } else {
        seq![','] + seq!['"', 'p', 'a', 'r', 'a', 'm', 'e', 't', 'e', 'r', 's', '"', ':', '{']
            + params_text(verbose_ps_of(t)) + seq!['}']
    };
    let mdtail = md + (tailp + rest);
    assert(s.skip(i) =~= seq!['{'] + (mn + (dtext_of(t.description) + (seq![','] + mdtail))));
    lemma_vtool_head_gen(s, i, t.name, t.description, mdtail);
    let ed = i + 2 + mn.len() + dtext_of(t.description).len();
    let acc2 = acc_nd(t.name, t.description);
    assert(s.skip(ed) =~= md + (tailp + rest));
    assert(all_plain(ckey));
    lemma_str_member_facts(s, ed, ckey, hex, tailp + rest);
    let e3 = ed + md.len();
    let acc3 = crate::decode::ToolFieldsV { discriminator: Some(hex), ..acc2 };
    lemma_member_disc_f(s, ed + 16, hex, e3, acc2);
    assert(s.skip(e3) =~= tailp + rest) by {
        assert(s.skip(e3) =~= s.skip(ed).skip(md.len() as int));
    }
    if t.accounts.len() == 0 && t.args.len() == 0 {
        assert(s[e3] == s.skip(e3)[0]);
        assert(s[e3] == '}');
        lemma_ws_stay(s, e3);
        lemma_tool_unfold_close(s, ed, ckey, acc2, acc3, e3);
        assert(crate::decode::finish_tool(acc3) matches Some(ft) && ft.name == t.name
            && ft.description == t.description && ft.discriminator == hex);
        assert(e3 + 1 == i + verbose_tool_json(t).len());
    } else {
        assert(s[e3] == s.skip(e3)[0]);
        assert(s[e3] == ',');
        lemma_ws_stay(s, e3);
        lemma_tool_unfold_comma(s, ed, ckey, acc2, acc3, e3);
        assert(s.skip(e3) =~= (seq![','] + seq![
            '"',
            'p',
            'a',
            'r',
            'a',
            'm',
            'e',
            't',
            'e',
            'r',
            's',
            '"',
            ':',
            '{',
        ] + params_text(verbose_ps_of(t)) + seq!['}']) + rest);
        lemma_verbose_tool_params(s, e3, t, rest, acc3);
        assert(e3 + tailp.len() == i + verbose_tool_json(t).len());
    }
}

/// Stepping the verbose tool parser over the `parameters` member and the
/// closing brace.
#[verifier::rlimit(100)]
proof fn lemma_verbose_tool_params(
    s: Seq<char>,
    e3: int,
    t: ToolV,
    rest: Seq<char>,
    acc3: crate::decode::ToolFieldsV,
)
    requires
        0 <= e3 < s.len(),
        t.accounts.len() > 0 || t.args.len() > 0,
        s.skip(e3) == (seq![','] + seq![
            '"',
            'p',
            'a',
            'r',
            'a',
            'm',
            'e',
            't',
            'e',
            'r',
            's',
            '"',
            ':',
            '{',
        ] + params_text(verbose_ps_of(t)) + seq!['}']) + rest,
        acc3.params is None,
        acc3.name == Some(t.name),
        acc3.discriminator == Some(disc_hex_chars(t.discriminator)),
        acc3.description == (match t.description {
            Some(d) => Some(Some(d)),
            None => None::<Option<Seq<char>>>,
        }),
    ensures
        crate::decode::parse_tool_rest(s, e3 + 1, acc3) matches Some(p) && {
            &&& p.1 == e3 + 16 + params_text(verbose_ps_of(t)).len()
            &&& p.0.name == t.name
            &&& p.0.description == t.description
            &&& p.0.discriminator == disc_hex_chars(t.discriminator)
        },
{
    assert(s.skip(e3).len() == s.len() - e3);
    let pkey = seq!['p', 'a', 'r', 'a', 'm', 'e', 't', 'e', 'r', 's'];
    let rest_p = seq!['}'] + rest;
    assert(s.skip(e3 + 1) =~= seq!['"'] + pkey + seq!['"', ':', '{'] + params_text(
        verbose_ps_of(t),
    ) + rest_p) by {
        assert(s.skip(e3 + 1) =~= s.skip(e3).skip(1));
    }
    assert(all_plain(pkey));
    lemma_obj_member_facts(s, e3 + 1, pkey, verbose_ps_of(t), rest_p);
    let e4 = e3 + 1 + 14 + params_text(verbose_ps_of(t)).len();
    let m = crate::decode::parse_params_rest(s, e3 + 15, Seq::empty())->Some_0.0;
    let acc4 = crate::decode::ToolFieldsV { params: Some(m), ..acc3 };
    lemma_member_params_f(s, e3 + 14, m, e4, acc3);
    assert(s.skip(e4) =~= rest_p) by {
        assert(s.skip(e4) =~= s.skip(e3 + 1).skip(14 + params_text(verbose_ps_of(t)).len()
            as int));
    }
    assert(s[e4] == s.skip(e4)[0]);
    assert(s[e4] == '}');
    lemma_ws_stay(s, e4);
    lemma_tool_unfold_close(s, e3 + 1, pkey, acc3, acc4, e4);
    assert(crate::decode::finish_tool(acc4) matches Some(ft) && ft.name == t.name
        && ft.description == t.description && ft.discriminator == disc_hex_chars(
        t.discriminator,
    ));
}

/// Decimal digit runs are plain.
proof fn lemma_digits_plain(n: int)
    ensures
        all_plain(dec_digits(n)),
        escape_str(dec_digits(n)) == dec_digits(n),
    decreases n,
{
    if n > 0 {
        lemma_digits_plain(n / 10);
        let c = ('0' as u8 + (n % 10) as u8) as char;
        assert(all_plain(dec_digits(n))) by {
            assert(dec_digits(n) == dec_digits(n / 10).push(c));
            assert(forall|i: int|
                0 <= i < dec_digits(n / 10).len() ==> dec_digits(n)[i] == dec_digits(n / 10)[i]);
            assert(dec_digits(n)[dec_digits(n).len() - 1] == c);
        }
    }
    lemma_escape_id(dec_digits(n));
}

/// Cursor strings are plain.
proof fn lemma_cursor_plain(n: int)
    requires
        n >= 0,
    ensures
        all_plain(cursor_str(n)),
        escape_str(cursor_str(n)) == cursor_str(n),
{
    lemma_digits_plain(n);
    if n == 0 {
        assert(all_plain(seq!['0']));
        lemma_escape_id(seq!['0']);
    }
}

/// The schema parser takes a `nextCursor` member as the pagination cursor.
proof fn lemma_smember_next(
    s: Seq<char>,
    q: int,
    value: Seq<char>,
    e: int,
    acc: crate::decode::SchemaFieldsV,
)
    requires
        parse_jval(s, q) == Some((JValV::S(value), e)),
        acc.next_cursor is None,
    ensures
        crate::decode::parse_schema_member(
            s,
            q,
            seq!['n', 'e', 'x', 't', 'C', 'u', 'r', 's', 'o', 'r'],
            acc,
        ) == Some((crate::decode::SchemaFieldsV { next_cursor: Some(Some(value)), ..acc }, e)),
{
    reveal_schema_keys();
    assert(seq!['n', 'e', 'x', 't', 'C', 'u', 'r', 's', 'o', 'r'] =~= "nextCursor"@) by {
        reveal_strlit("nextCursor");
    }
    assert(seq!['n', 'e', 'x', 't', 'C', 'u', 'r', 's', 'o', 'r'] != "name"@);
    assert(seq!['n', 'e', 'x', 't', 'C', 'u', 'r', 's', 'o', 'r'] != "tools"@);
}

/// The text between the tools bracket and the closing brace of a page.
pub open spec fn page_tail_text(sc: SchemaV, c: int) -> Seq<char> {
    (if 0 <= c < sc.tools.len() {
        verbose_tool_json(sc.tools[c])
    } else {
        Seq::<char>::empty()
    }) + seq![']'] + (if 0 <= c && c + 1 < sc.tools.len() {
        seq![','] + member_text(
            seq!['n', 'e', 'x', 't', 'C', 'u', 'r', 's', 'o', 'r'],
            MemVal::VStr(cursor_str(c + 1)),
        )
    } else {
        Seq::<char>::empty()
    })
}

/// The page text, laid out member by member.
#[verifier::rlimit(100)]
proof fn lemma_page_shape(sc: SchemaV, c: int)
    requires
        0 <= c,
        forall|k: int| 0 <= k < sc.tools.len() ==> (#[trigger] sc.tools[k]).discriminator.len()
            == 8,
    ensures
        page_json(sc, c) == seq!['{'] + (member_text(seq!['v'], MemVal::VStr("2024-11-05"@)) + (
        seq![','] + (member_text(seq!['n', 'a', 'm', 'e'], MemVal::VStr(sc.name)) + (seq![','] + (
        seq!['"', 't', 'o', 'o', 'l', 's', '"', ':', '['] + (page_tail_text(sc, c) + seq![
            '}',
        ])))))),
{
    reveal(page_json);
    reveal_strlit("{\"v\":\"");
    reveal_strlit("2024-11-05");
    reveal_strlit("\",\"name\":\"");
    reveal_strlit("\",\"tools\":[");
    reveal_strlit(",\"nextCursor\":\"");
    reveal_strlit("\"");
    reveal_strlit("}");
    reveal_strlit("]");
    reveal_strlit("nextCursor");
    reveal_strlit("v");
    reveal_strlit("name");
    assert(all_plain(seq!['v']) && all_plain(seq!['n', 'a', 'm', 'e']) && all_plain(
        seq!['n', 'e', 'x', 't', 'C', 'u', 'r', 's', 'o', 'r'],
    ));
    lemma_escape_id(seq!['v']);
    lemma_escape_id(seq!['n', 'a', 'm', 'e']);
    lemma_escape_id(seq!['n', 'e', 'x', 't', 'C', 'u', 'r', 's', 'o', 'r']);
    assert(all_plain("2024-11-05"@));
    lemma_escape_id("2024-11-05"@);
    lemma_cursor_plain(c + 1);
    if 0 <= c < sc.tools.len() {
        if c + 1 < sc.tools.len() {
            assert(page_json(sc, c) =~= seq!['{'] + (member_text(
                seq!['v'],
                MemVal::VStr("2024-11-05"@),
            ) + (seq![','] + (member_text(seq!['n', 'a', 'm', 'e'], MemVal::VStr(sc.name)) + (seq![
                ',',
            ] + (seq!['"', 't', 'o', 'o', 'l', 's', '"', ':', '['] + (page_tail_text(sc, c) + seq![
                '}',
            ])))))));
        } else {
            assert(page_json(sc, c) =~= seq!['{'] + (member_text(
                seq!['v'],
                MemVal::VStr("2024-11-05"@),
            ) + (seq![','] + (member_text(seq!['n', 'a', 'm', 'e'], MemVal::VStr(sc.name)) + (seq![
                ',',
            ] + (seq!['"', 't', 'o', 'o', 'l', 's', '"', ':', '['] + (page_tail_text(sc, c) + seq![
                '}',
            ])))))));
        }
    } else {
        assert(page_json(sc, c) =~= seq!['{'] + (member_text(
            seq!['v'],
            MemVal::VStr("2024-11-05"@),
        ) + (seq![','] + (member_text(seq!['n', 'a', 'm', 'e'], MemVal::VStr(sc.name)) + (seq![',']
            + (seq!['"', 't', 'o', 'o', 'l', 's', '"', ':', '['] + (page_tail_text(sc, c) + seq![
            '}',
        ])))))));
    }
}

/// Stepping the schema parser over a page's `tools` member, optional
/// `nextCursor`, and closing brace.
#[verifier::rlimit(100)]
proof fn lemma_page_tools_close(s: Seq<char>, p: int, sc: SchemaV, c: int, acc2: crate::decode::SchemaFieldsV)
    requires
        0 <= p <= s.len(),
        0 <= c,
        forall|k: int| 0 <= k < sc.tools.len() ==> (#[trigger] sc.tools[k]).discriminator.len()
            == 8,
        s.skip(p) == seq!['"', 't', 'o', 'o', 'l', 's', '"', ':', '['] + (page_tail_text(sc, c)
            + seq!['}']),
        acc2.tools is None,
        acc2.next_cursor is None,
        acc2.version is Some,
        acc2.name is Some,
    ensures
        crate::decode::parse_schema_rest(s, p, acc2) matches Some(pr) && {
            &&& pr.1 == s.len()
            &&& pr.0.version == acc2.version->0
            &&& pr.0.name == acc2.name->0
            &&& pr.0.tools.len() == (if 0 <= c < sc.tools.len() {
                1int
            } else {
                0int
            })
            &&& (pr.0.next_cursor is Some <==> c + 1 < sc.tools.len())
            &&& (c + 1 < sc.tools.len() ==> pr.0.next_cursor == Some(cursor_str(c + 1)))
            &&& (0 <= c < sc.tools.len() ==> pr.0.tools[0].name == sc.tools[c].name
                && pr.0.tools[0].discriminator == disc_hex_chars(sc.tools[c].discriminator))
        },
{
    assert(s.skip(p).len() == s.len() - p);
    let tkey = seq!['t', 'o', 'o', 'l', 's'];
    let nkey = seq!['n', 'e', 'x', 't', 'C', 'u', 'r', 's', 'o', 'r'];
    let tail = page_tail_text(sc, c) + seq!['}'];
    assert(s[p] == s.skip(p)[0]);
    assert(s[p] == '"');
    lemma_ws_stay(s, p);
    assert(all_plain(tkey)) by {
        reveal_strlit("tools");
        reveal_schema_keys();
    }
    lemma_escape_id(tkey);
    assert(s.skip(p + 1) =~= tkey + seq!['"'] + (seq![':', '['] + tail)) by {
        assert(s.skip(p + 1) =~= s.skip(p).skip(1));
    }
    lemma_parse_str_round(s, p + 1, tkey, seq![':', '['] + tail);
    let jc = p + 7;
    assert(parse_str_body(s, p + 1) == Some((tkey, jc)));
    assert(s.skip(jc) =~= seq![':', '['] + tail) by {
        assert(s.skip(jc) =~= s.skip(p).skip(7));
    }
    assert(s[jc] == s.skip(jc)[0]);
    assert(s[jc + 1] == s.skip(jc)[1]);
    lemma_ws_stay(s, jc);
    lemma_ws_stay(s, jc + 1);
    assert(s.skip(jc + 2) =~= tail) by {
        assert(s.skip(jc + 2) =~= s.skip(jc).skip(2));
    }
    let curs = if 0 <= c && c + 1 < sc.tools.len() {
        seq![','] + member_text(nkey, MemVal::VStr(cursor_str(c + 1)))
    } else {
        Seq::<char>::empty()
    };
    // the tools array
    let e_arr: int;
    let ts: Seq<crate::client::ParsedToolV>;
    if 0 <= c < sc.tools.len() {
        let t = sc.tools[c];
        assert(s.skip(jc + 2) =~= verbose_tool_json(t) + (seq![']'] + curs + seq!['}']));
        lemma_verbose_tool(s, jc + 2, t, seq![']'] + curs + seq!['}']);
        assert(s[jc + 2] == s.skip(jc + 2)[0]);
        lemma_ws_stay(s, jc + 2);
        let pt = crate::decode::parse_tool_rest(
            s,
            jc + 3,
            crate::decode::empty_tool_fields(),
        )->Some_0.0;
        let e_t = jc + 2 + verbose_tool_json(t).len();
        assert(s.skip(e_t) =~= seq![']'] + curs + seq!['}']) by {
            assert(s.skip(e_t) =~= s.skip(jc + 2).skip(verbose_tool_json(t).len() as int));
        }
        assert(s[e_t] == s.skip(e_t)[0]);
        assert(s[e_t] == ']');
        lemma_ws_stay(s, e_t);
        ts = seq![pt];
        e_arr = e_t + 1;
        assert(crate::decode::parse_tools_rest(s, jc + 2, Seq::empty()) == Some((ts, e_arr))) by {
            assert(Seq::<crate::client::ParsedToolV>::empty().push(pt) =~= seq![pt]);
        }
        assert(s.skip(e_arr) =~= curs + seq!['}']) by {
            assert(s.skip(e_arr) =~= s.skip(e_t).skip(1));
        }
    } else {
        assert(page_tail_text(sc, c) =~= seq![']'] + curs);
        assert(s.skip(jc + 2) =~= seq![']'] + curs + seq!['}']);
        assert(s[jc + 2] == s.skip(jc + 2)[0]);
        assert(s[jc + 2] == ']');
        lemma_ws_stay(s, jc + 2);
        ts = Seq::empty();
        e_arr = jc + 3;
        assert(crate::decode::parse_tools_rest(s, jc + 2, Seq::empty()) == Some((ts, e_arr)));
        assert(s.skip(e_arr) =~= curs + seq!['}']) by {
            assert(s.skip(e_arr) =~= s.skip(jc + 2).skip(1));
        }
    }
    let acc3 = crate::decode::SchemaFieldsV { tools: Some(ts), ..acc2 };
    lemma_smember_tools(s, jc + 1, ts, e_arr, acc2);
    if 0 <= c && c + 1 < sc.tools.len() {
        // member "nextCursor"
        assert(s[e_arr] == s.skip(e_arr)[0]);
        assert(s[e_arr] == ',');
        lemma_ws_stay(s, e_arr);
        lemma_schema_unfold_comma(s, p, tkey, acc2, acc3, e_arr);
        let mnext = member_text(nkey, MemVal::VStr(cursor_str(c + 1)));
        assert(s.skip(e_arr + 1) =~= mnext + seq!['}']) by {
            assert(s.skip(e_arr + 1) =~= s.skip(e_arr).skip(1));
        }
        assert(all_plain(nkey)) by {
            reveal_strlit("nextCursor");
        }
        lemma_str_member_facts(s, e_arr + 1, nkey, cursor_str(c + 1), seq!['}']);
        let e_n = e_arr + 1 + mnext.len();
        let acc4 = crate::decode::SchemaFieldsV {
            next_cursor: Some(Some(cursor_str(c + 1))),
            ..acc3
        };
        lemma_smember_next(s, e_arr + 14, cursor_str(c + 1), e_n, acc3);
        assert(s.skip(e_n) =~= seq!['}']) by {
            assert(s.skip(e_n) =~= s.skip(e_arr + 1).skip(mnext.len() as int));
        }
        assert(s[e_n] == s.skip(e_n)[0]);
        assert(s[e_n] == '}');
        lemma_ws_stay(s, e_n);
        lemma_schema_unfold_close(s, e_arr + 1, nkey, acc3, acc4, e_n);
        assert(e_n + 1 == s.len());
    } else {
        assert(curs =~= Seq::<char>::empty());
        assert(s.skip(e_arr) =~= seq!['}']);
        assert(s[e_arr] == s.skip(e_arr)[0]);
        assert(s[e_arr] == '}');
        lemma_ws_stay(s, e_arr);
        lemma_schema_unfold_close(s, p, tkey, acc2, acc3, e_arr);
        assert(e_arr + 1 == s.len());
    }
}

/// Pagination round trip: every page of a schema parses; the page carries
/// the tool at its cursor, and a `nextCursor` exactly when more tools
/// follow.
#[verifier::rlimit(100)]
pub proof fn lemma_page_round(sc: SchemaV, c: int)
    requires
        0 <= c,
        forall|k: int| 0 <= k < sc.tools.len() ==> (#[trigger] sc.tools[k]).discriminator.len()
            == 8,
    ensures
        crate::decode::parse_schema_doc(page_json(sc, c)) matches Some(p) && {
            &&& p.version == "2024-11-05"@
            &&& p.name == sc.name
            &&& p.tools.len() == (if 0 <= c < sc.tools.len() {
                1int
            } else {
                0int
            })
            &&& (p.next_cursor is Some <==> c + 1 < sc.tools.len())
            &&& (c + 1 < sc.tools.len() ==> p.next_cursor == Some(cursor_str(c + 1)))
            &&& (0 <= c < sc.tools.len() ==> p.tools[0].name == sc.tools[c].name
                && p.tools[0].discriminator == disc_hex_chars(sc.tools[c].discriminator))
        },
{
    lemma_page_shape(sc, c);
    let s = page_json(sc, c);
    let mv = member_text(seq!['v'], MemVal::VStr("2024-11-05"@));
    let mname = member_text(seq!['n', 'a', 'm', 'e'], MemVal::VStr(sc.name));
    let pre9 = seq!['"', 't', 'o', 'o', 'l', 's', '"', ':', '['];
    let ttext = page_tail_text(sc, c);
    lemma_schema_head_v(s, sc.name, ttext);
    let e1: int = 1int + mv.len();
    let acc1 = crate::decode::SchemaFieldsV {
        version: Some("2024-11-05"@),
        name: None,
        tools: None,
        next_cursor: None,
    };
    let after_name = seq![','] + (pre9 + (ttext + seq!['}']));
    lemma_schema_name_step(s, e1 + 1, sc.name, after_name, acc1);
    let e2: int = e1 + 1int + mname.len();
    let acc2 = crate::decode::SchemaFieldsV { name: Some(sc.name), ..acc1 };
    assert(s.skip(e2 + 1) == after_name.skip(1));
    assert(after_name.skip(1) == pre9 + (ttext + seq!['}'])) by {
        lemma_skip_concat_off(seq![','], pre9 + (ttext + seq!['}']), 0);
        assert((pre9 + (ttext + seq!['}'])).skip(0) =~= pre9 + (ttext + seq!['}']));
    }
    lemma_page_tools_close(s, e2 + 1, sc, c, acc2);
    let pr = crate::decode::parse_schema_rest(s, e2 + 1, acc2)->Some_0;
    assert(s[0] == '{') by {
        assert(s.skip(0) =~= s);
        assert(s[0] == s.skip(0)[0]);
    }
    lemma_ws_stay(s, 0);
    assert(ws_end(s, pr.1) == pr.1);
    assert(crate::decode::parse_schema_doc(s) == Some(pr.0));
}

/// Stripping one trailing copy of `p`, when what remains does not end in
/// `p`, is all the stripping there is.
proof fn lemma_strip_one(x: Seq<char>, p: Seq<char>)
    requires
        p.len() > 0,
        crate::strutil::has_suffix(x, p),
        !crate::strutil::has_suffix(x.take(x.len() - p.len()), p),
    ensures
        crate::client::strip_all(x, p) == x.take(x.len() - p.len()),
{
    let t = x.take(x.len() - p.len());
    assert(crate::client::strip_all(x, p) == crate::client::strip_all(t, p));
    assert(crate::client::strip_all(t, p) == t);
}

/// Nothing is stripped from a string that does not end in `p`.
proof fn lemma_strip_none(x: Seq<char>, p: Seq<char>)
    requires
        !crate::strutil::has_suffix(x, p),
    ensures
        crate::client::strip_all(x, p) == x,
{
}

/// Suffix round trip: an account name that itself carries no suffix-shaped
/// tail, serialized with its flag suffix, strips back to the bare name.
/// The signer-and-writable pair serializes as `_sw`, and `base_name` strips
/// it whole — checking the longest token first — rather than in parts.
///
/// A name that genuinely ends in a suffix token (such as `a_s` written with
/// an empty suffix) would be mis-stripped, which is why such names are left
/// out here.
#[verifier::rlimit(100)]
pub proof fn lemma_suffix_round_trip(name: Seq<char>, is_signer: bool, is_writable: bool)
    requires
        !crate::strutil::has_suffix(name, "_sw"@),
        !crate::strutil::has_suffix(name, "_s"@),
        !crate::strutil::has_suffix(name, "_w"@),
    ensures
        crate::client::base_name_spec(name + suffix_spec(is_signer, is_writable)) == name,
{
    reveal_strlit("_sw");
    reveal_strlit("_s");
    reveal_strlit("_w");
    reveal_strlit("");
    let sfx = suffix_spec(is_signer, is_writable);
    let x = name + sfx;
    if is_signer && is_writable {
        assert(crate::strutil::has_suffix(x, "_sw"@)) by {
            assert(x.subrange(x.len() - 3, x.len() as int) =~= "_sw"@);
        }
        assert(x.take(x.len() - 3) =~= name);
        lemma_strip_one(x, "_sw"@);
        lemma_strip_none(name, "_s"@);
        lemma_strip_none(name, "_w"@);
    } else if is_signer {
        assert(x.take(x.len() - 2) =~= name);
        assert(!crate::strutil::has_suffix(x, "_sw"@)) by {
            if crate::strutil::has_suffix(x, "_sw"@) {
                assert(x.subrange(x.len() - 3, x.len() as int)[2] == x[x.len() - 1]);
                assert(x[x.len() - 1] == 'w');
                assert(x[x.len() - 1] == "_s"@[1]);
            }
        }
        lemma_strip_none(x, "_sw"@);
        assert(crate::strutil::has_suffix(x, "_s"@)) by {
            assert(x.subrange(x.len() - 2, x.len() as int) =~= "_s"@);
        }
        lemma_strip_one(x, "_s"@);
        lemma_strip_none(name, "_w"@);
    } else if is_writable {
        assert(x.take(x.len() - 2) =~= name);
        assert(!crate::strutil::has_suffix(x, "_sw"@)) by {
            if crate::strutil::has_suffix(x, "_sw"@) {
                assert(x.subrange(x.len() - 3, x.len() as int)[1] == x[x.len() - 2]);
                assert(x.subrange(x.len() - 3, x.len() as int)[0] == x[x.len() - 3]);
                assert(x[x.len() - 2] == 's');
                assert(x[x.len() - 3] == '_');
                assert(x[x.len() - 2] == name[name.len() - 1]);
                assert(x[x.len() - 3] == name[name.len() - 2]);
                assert(name.subrange(name.len() - 2, name.len() as int) =~= "_s"@);
            }
        }
        lemma_strip_none(x, "_sw"@);
        assert(!crate::strutil::has_suffix(x, "_s"@)) by {
            if crate::strutil::has_suffix(x, "_s"@) {
                assert(x.subrange(x.len() - 2, x.len() as int)[1] == x[x.len() - 1]);
                assert(x[x.len() - 1] == 's');
            }
        }
        lemma_strip_none(x, "_s"@);
        assert(crate::strutil::has_suffix(x, "_w"@)) by {
            assert(x.subrange(x.len() - 2, x.len() as int) =~= "_w"@);
        }
        lemma_strip_one(x, "_w"@);
    } else {
        assert(x =~= name);
        lemma_strip_none(name, "_sw"@);
        lemma_strip_none(name, "_s"@);
        lemma_strip_none(name, "_w"@);
    }
}

} // verus!
