//! JSON generation for schemas.
//!
//! Two wire shapes share one byte budget: the compact form abbreviates keys
//! and carries the whole catalog, the paginated form carries one tool per
//! page with full keys and descriptions.  Every generator's output equals a
//! spec-level rendering of the schema model, character for character.

use vstd::prelude::*;
use crate::schema::{
    AccountMetaV, ArgV, McpAccountMeta, McpArg, McpSchema, McpTool, SchemaV, ToolV,
    compact_name_spec, suffix_spec,
};
use crate::discriminator::hex_digit_byte;

verus! {

/// The escape sequence a character is written as inside a JSON string:
/// quote, backslash, newline, carriage return and tab are escaped, every
/// other character stands for itself.
pub open spec fn escape_char(c: char) -> Seq<char> {
    if c == '"' {
        seq!['\\', '"']
    } else if c == '\\' {
        seq!['\\', '\\']
    } else if c == '\n' {
        seq!['\\', 'n']
    } else if c == '\r' {
        seq!['\\', 'r']
    } else if c == '\t' {
        seq!['\\', 't']
    } else {
        seq![c]
    }
}

/// A string with every character escaped.
pub open spec fn escape_str(s: Seq<char>) -> Seq<char>
    decreases s.len(),
{
    if s.len() == 0 {
        Seq::empty()
    } else {
        escape_char(s[0]) + escape_str(s.skip(1))
    }
}

/// Escaping a string one character longer appends that character's escape.
pub proof fn lemma_escape_push(s: Seq<char>, c: char)
    ensures
        escape_str(s.push(c)) == escape_str(s) + escape_char(c),
    decreases s.len(),
{
    if s.len() == 0 {
        assert(s.push(c)[0] == c);
        assert(s.push(c).skip(1) =~= Seq::<char>::empty());
        assert(escape_str(s.push(c)) == escape_char(c) + escape_str(Seq::<char>::empty()));
        assert(escape_char(c) + escape_str(Seq::<char>::empty()) =~= escape_char(c));
        assert(escape_str(s) + escape_char(c) =~= escape_char(c));
    } else {
        assert(s.push(c).skip(1) =~= s.skip(1).push(c));
        lemma_escape_push(s.skip(1), c);
        assert(s.push(c)[0] == s[0]);
        assert(escape_str(s.push(c)) == escape_char(s[0]) + (escape_str(s.skip(1)) + escape_char(
            c,
        )));
        assert(escape_char(s[0]) + (escape_str(s.skip(1)) + escape_char(c)) =~= (escape_char(s[0])
            + escape_str(s.skip(1))) + escape_char(c));
        assert(escape_str(s) == escape_char(s[0]) + escape_str(s.skip(1)));
    }
}

/// Escaping distributes over concatenation.
pub proof fn lemma_escape_concat(a: Seq<char>, b: Seq<char>)
    ensures
        escape_str(a + b) == escape_str(a) + escape_str(b),
    decreases a.len(),
{
    if a.len() == 0 {
        assert(a + b =~= b);
        assert(escape_str(a) + escape_str(b) =~= escape_str(b));
    } else {
        assert((a + b).skip(1) =~= a.skip(1) + b);
        lemma_escape_concat(a.skip(1), b);
        assert(escape_str(a + b) =~= escape_str(a) + escape_str(b));
    }
}

/// Escape JSON special characters of `s` onto the end of `out`.
pub fn escape_json_into(s: &str, out: &mut String)
    ensures
        final(out)@ == old(out)@ + escape_str(s@),
{
    let n = s.unicode_len();
    proof {
        assert(out@ =~= old(out)@ + escape_str(s@.take(0)));
    }
    let mut i: usize = 0;
    while i < n
        invariant
            n == s@.len(),
            i <= n,
            out@ == old(out)@ + escape_str(s@.take(i as int)),
        decreases n - i,
    {
        let c = s.get_char(i);
        if c == '"' {
            out.push('\\');
            out.push('"');
        } else if c == '\\' {
            out.push('\\');
            out.push('\\');
        } else if c == '\n' {
            out.push('\\');
            out.push('n');
        } else if c == '\r' {
            out.push('\\');
            out.push('r');
        } else if c == '\t' {
            out.push('\\');
            out.push('t');
        } else {
            out.push(c);
        }
        proof {
            assert(s@.take(i + 1) =~= s@.take(i as int).push(s@[i as int]));
            lemma_escape_push(s@.take(i as int), s@[i as int]);
            assert(out@ =~= old(out)@ + escape_str(s@.take(i + 1)));
        }
        i = i + 1;
    }
    proof {
        assert(s@.take(n as int) =~= s@);
    }
}

/// The 16 lowercase hex characters of an 8-byte discriminator.
pub open spec fn disc_hex_chars(d: Seq<u8>) -> Seq<char>
    recommends
        d.len() == 8,
{
    Seq::new(
        16,
        |i: int|
            hex_digit_byte(
                if i % 2 == 0 {
                    (d[i / 2] / 16) as u8
                } else {
                    (d[i / 2] % 16) as u8
                },
            ) as char,
    )
}

/// Append the lowercase hex form of a discriminator.
pub fn push_disc_hex(out: &mut String, d: &[u8; 8])
    ensures
        final(out)@ == old(out)@ + disc_hex_chars(d@),
{
    proof {
        assert(out@ =~= old(out)@ + disc_hex_chars(d@).take(0));
    }
    let mut i: usize = 0;
    while i < 8
        invariant
            i <= 8,
            out@ == old(out)@ + disc_hex_chars(d@).take(2 * i),
        decreases 8 - i,
    {
        let b = d[i];
        let hi = b / 16;
        let lo = b % 16;
        let hc = if hi < 10 {
            ('0' as u8 + hi) as char
        } else {
            ('a' as u8 + (hi - 10)) as char
        };
        let lc = if lo < 10 {
            ('0' as u8 + lo) as char
        } else {
            ('a' as u8 + (lo - 10)) as char
        };
        out.push(hc);
        out.push(lc);
        proof {
            assert(hc == disc_hex_chars(d@)[2 * i]);
            assert(lc == disc_hex_chars(d@)[2 * i + 1]);
            assert(out@ =~= old(out)@ + disc_hex_chars(d@).take(2 * (i + 1)));
        }
        i = i + 1;
    }
    proof {
        assert(disc_hex_chars(d@).take(16) =~= disc_hex_chars(d@));
    }
}

/// The decimal digits of a non-negative number, most significant first;
/// empty for zero.
pub open spec fn dec_digits(n: int) -> Seq<char>
    decreases n,
{
    if n <= 0 {
        Seq::empty()
    } else {
        dec_digits(n / 10).push(('0' as u8 + (n % 10) as u8) as char)
    }
}

/// The decimal rendering of a cursor value: `"0"` for zero, the plain digits
/// otherwise.
pub open spec fn cursor_str(n: int) -> Seq<char> {
    if n == 0 {
        seq!['0']
    } else {
        dec_digits(n)
    }
}

/// Format a cursor number as a decimal string.
///
/// The scratch buffer is kept for callers that pass one; it is left
/// unchanged.  The buffer bounds the original design to three digits, so
/// cursors up to 999 are supported; the wire cursor is a page index below
/// 256.
pub fn format_cursor(n: usize, buf: &mut [u8; 3]) -> (r: String)
    requires
        n <= 999,
    ensures
        final(buf)@ == old(buf)@,
        r@ == cursor_str(n as int),
{
    let mut out = String::new();
    if n == 0 {
        out.push('0');
        assert(out@ =~= cursor_str(0));
        return out;
    }
    let d2 = (n / 100) as u8;
    let d1 = ((n / 10) % 10) as u8;
    let d0 = (n % 10) as u8;
    if d2 > 0 {
        out.push(('0' as u8 + d2) as char);
    }
    if d2 > 0 || d1 > 0 {
        out.push(('0' as u8 + d1) as char);
    }
    out.push(('0' as u8 + d0) as char);
    proof {
        let ni = n as int;
        assert(dec_digits(0) == Seq::<char>::empty());
        if ni >= 100 {
            assert((ni / 10) / 10 == ni / 100) by (nonlinear_arith)
                requires
                    ni >= 0,
            ;
            assert(ni / 100 <= 9);
            assert(dec_digits(ni / 100) == dec_digits((ni / 100) / 10).push(
                ('0' as u8 + ((ni / 100) % 10) as u8) as char,
            ));
            assert((ni / 100) / 10 == 0);
            assert((ni / 100) % 10 == ni / 100);
            assert(dec_digits(ni / 10) == dec_digits(ni / 100).push(
                ('0' as u8 + ((ni / 10) % 10) as u8) as char,
            ));
            assert(dec_digits(ni) == dec_digits(ni / 10).push(('0' as u8 + (ni % 10) as u8) as char));
            assert(out@ =~= dec_digits(ni));
        } else if ni >= 10 {
            assert(ni / 100 == 0);
            assert((ni / 10) / 10 == 0) by (nonlinear_arith)
                requires
                    10 <= ni < 100,
            ;
            assert(ni / 10 <= 9);
            assert((ni / 10) % 10 == ni / 10);
            assert(dec_digits(ni / 10) == dec_digits((ni / 10) / 10).push(
                ('0' as u8 + ((ni / 10) % 10) as u8) as char,
            ));
            assert(dec_digits(ni) == dec_digits(ni / 10).push(('0' as u8 + (ni % 10) as u8) as char));
            assert(out@ =~= dec_digits(ni));
        } else {
            assert(ni / 100 == 0 && (ni / 10) % 10 == 0);
            assert(dec_digits(ni) == dec_digits(ni / 10).push(('0' as u8 + (ni % 10) as u8) as char));
            assert(ni / 10 == 0);
            assert(out@ =~= dec_digits(ni));
        }
    }
    out
}

/// Comma-joined concatenation of rendered items.
pub open spec fn join_comma(items: Seq<Seq<char>>) -> Seq<char>
    decreases items.len(),
{
    if items.len() == 0 {
        Seq::empty()
    } else if items.len() == 1 {
        items[0]
    } else {
        items[0] + ","@ + join_comma(items.skip(1))
    }
}

/// Joining one more item appends a comma (unless the list was empty) and the
/// item.
pub proof fn lemma_join_push(items: Seq<Seq<char>>, x: Seq<char>)
    ensures
        items.len() == 0 ==> join_comma(items.push(x)) == x,
        items.len() > 0 ==> join_comma(items.push(x)) == join_comma(items) + ","@ + x,
    decreases items.len(),
{
    if items.len() == 0 {
        assert(items.push(x).len() == 1);
        assert(items.push(x)[0] == x);
    } else if items.len() == 1 {
        assert(items.push(x)[0] == items[0]);
        assert(items.push(x).skip(1) =~= seq![x]);
        assert(join_comma(seq![x]) == x);
    } else {
        assert(items.push(x).skip(1) =~= items.skip(1).push(x));
        lemma_join_push(items.skip(1), x);
        assert(join_comma(items.push(x)) == items[0] + ","@ + (join_comma(items.skip(1)) + ","@
            + x));
        assert(items[0] + ","@ + (join_comma(items.skip(1)) + ","@ + x) =~= (items[0] + ","@
            + join_comma(items.skip(1))) + ","@ + x);
    }
}

/// Compact property entry of an account: escaped name plus suffix, typed
/// `pubkey`.
pub open spec fn compact_acc_prop(a: AccountMetaV) -> Seq<char> {
    "\""@ + escape_str(a.name) + suffix_spec(a.is_signer, a.is_writable) + "\":\"pubkey\""@
}

/// Compact property entry of an argument: escaped name and its type token.
pub open spec fn compact_arg_prop(g: ArgV) -> Seq<char> {
    "\""@ + escape_str(g.name) + "\":\""@ + compact_name_spec(g.arg_type) + "\""@
}

/// The parameter key of an account in the compact form.
pub open spec fn acc_key(a: AccountMetaV) -> Seq<char> {
    escape_str(a.name) + suffix_spec(a.is_signer, a.is_writable)
}

/// The parameter key of an argument in the compact form.
pub open spec fn arg_key(g: ArgV) -> Seq<char> {
    escape_str(g.name)
}

/// A required-array entry: the key in quotes.
pub open spec fn req_entry(k: Seq<char>) -> Seq<char> {
    "\""@ + k + "\""@
}

/// All compact property entries of a tool, accounts before arguments.
pub open spec fn compact_props(t: ToolV) -> Seq<Seq<char>> {
    t.accounts.map_values(|a: AccountMetaV| compact_acc_prop(a)) + t.args.map_values(
        |g: ArgV| compact_arg_prop(g),
    )
}

/// All parameter keys of a tool, accounts before arguments.
pub open spec fn compact_keys(t: ToolV) -> Seq<Seq<char>> {
    t.accounts.map_values(|a: AccountMetaV| acc_key(a)) + t.args.map_values(
        |g: ArgV| arg_key(g),
    )
}

/// The compact JSON rendering of one tool.
#[verifier::opaque]
pub open spec fn compact_tool_json(t: ToolV) -> Seq<char> {
    "{\"n\":\""@ + escape_str(t.name) + "\""@ + (match t.description {
        Option::Some(d) => ",\"i\":\""@ + escape_str(d) + "\""@,
        Option::None => Seq::<char>::empty(),
    }) + ",\"d\":\""@ + disc_hex_chars(t.discriminator) + (
    if t.accounts.len() == 0 && t.args.len() == 0 {
        "\"}"@
    } else {
        "\",\"p\":{"@ + join_comma(compact_props(t)) + "},\"r\":["@ + join_comma(
            compact_keys(t).map_values(|k: Seq<char>| req_entry(k)),
        ) + "]}"@
    })
}

/// The compact JSON rendering of a whole schema.
pub open spec fn compact_schema_json(s: SchemaV) -> Seq<char> {
    "{\"v\":\""@ + "2024-11-05"@ + "\",\"name\":\""@ + escape_str(s.name) + "\",\"tools\":["@
        + join_comma(s.tools.map_values(|t: ToolV| compact_tool_json(t))) + "]}"@
}

/// Append the compact JSON for a single tool.
#[verifier::rlimit(100)]
pub fn generate_tool_json(tool: &McpTool, json: &mut String)
    ensures
        final(json)@ == old(json)@ + compact_tool_json(tool@),
{
    json.append("{\"n\":\"");
    escape_json_into(tool.name.as_str(), json);
    json.append("\"");

    match &tool.description {
        Some(desc) => {
            json.append(",\"i\":\"");
            escape_json_into(desc.as_str(), json);
            json.append("\"");
        },
        None => {},
    }

    json.append(",\"d\":\"");
    push_disc_hex(json, &tool.discriminator);

    if tool.accounts.len() == 0 && tool.args.len() == 0 {
        json.append("\"}");
        proof {
            reveal(compact_tool_json);
        }
        assert(final(json)@ =~= old(json)@ + compact_tool_json(tool@));
        return ;
    }

    json.append("\",\"p\":{");

    let ghost props = compact_props(tool@);
    let ghost keys = compact_keys(tool@);
    let ghost base = json@;
    let na = tool.accounts.len();
    let ng = tool.args.len();
    let mut required: Vec<String> = Vec::new();

    let mut i: usize = 0;
    proof {
        assert(base + join_comma(props.take(0)) =~= base);
    }
    while i < na
        invariant
            na == tool@.accounts.len(),
            ng == tool@.args.len(),
            i <= na,
            props == compact_props(tool@),
            keys == compact_keys(tool@),
            json@ == base + join_comma(props.take(i as int)),
            required@.len() == i,
            forall|k: int| 0 <= k < i ==> #[trigger] required@[k]@ == keys[k],
        decreases na - i,
    {
        if i > 0 {
            json.append(",");
        }
        let acc = &tool.accounts[i];
        json.append("\"");
        escape_json_into(acc.name.as_str(), json);
        json.append(acc.suffix());
        json.append("\":\"pubkey\"");

        let mut key = String::new();
        escape_json_into(acc.name.as_str(), &mut key);
        key.append(acc.suffix());
        required.push(key);

        proof {
            assert(tool@.accounts[i as int] == tool.accounts@[i as int]@);
            assert(props[i as int] == compact_acc_prop(tool@.accounts[i as int]));
            assert(keys[i as int] == acc_key(tool@.accounts[i as int]));
            assert(props.take(i + 1) =~= props.take(i as int).push(props[i as int]));
            lemma_join_push(props.take(i as int), props[i as int]);
            assert(json@ =~= base + join_comma(props.take(i + 1)));
        }
        i = i + 1;
    }

    let mut j: usize = 0;
    while j < ng
        invariant
            na == tool@.accounts.len(),
            ng == tool@.args.len(),
            j <= ng,
            props == compact_props(tool@),
            keys == compact_keys(tool@),
            json@ == base + join_comma(props.take(na + j)),
            required@.len() == na + j,
            forall|k: int| 0 <= k < na + j ==> #[trigger] required@[k]@ == keys[k],
        decreases ng - j,
    {
        if na > 0 || j > 0 {
            json.append(",");
        }
        let arg = &tool.args[j];
        json.append("\"");
        escape_json_into(arg.name.as_str(), json);
        json.append("\":\"");
        json.append(arg.arg_type.compact_name());
        json.append("\"");

        let mut key = String::new();
        escape_json_into(arg.name.as_str(), &mut key);
        required.push(key);

        proof {
            assert(tool@.args[j as int] == tool.args@[j as int]@);
            assert(props[na + j] == compact_arg_prop(tool@.args[j as int]));
            assert(keys[na + j] == arg_key(tool@.args[j as int]));
            assert(props.take(na + j + 1) =~= props.take(na + j).push(props[na + j]));
            lemma_join_push(props.take(na + j), props[na + j]);
            assert(json@ =~= base + join_comma(props.take(na + j + 1)));
        }
        j = j + 1;
    }

    proof {
        assert(props.take((na + ng) as int) =~= props);
        assert(keys.take((na + ng) as int) =~= keys);
    }

    json.append("},\"r\":[");
    let ghost base2 = json@;
    let ghost entries = keys.map_values(|k: Seq<char>| req_entry(k));

    let nreq = required.len();
    let mut k: usize = 0;
    proof {
        assert(base2 + join_comma(entries.take(0)) =~= base2);
    }
    while k < nreq
        invariant
            nreq == entries.len(),
            nreq == required@.len(),
            k <= nreq,
            forall|m: int| 0 <= m < nreq ==> #[trigger] required@[m]@ == keys[m],
            entries == keys.map_values(|q: Seq<char>| req_entry(q)),
            keys == compact_keys(tool@),
            json@ == base2 + join_comma(entries.take(k as int)),
        decreases nreq - k,
    {
        if k > 0 {
            json.append(",");
        }
        json.append("\"");
        json.append(required[k].as_str());
        json.append("\"");
        proof {
            assert(entries[k as int] == req_entry(keys[k as int]));
            assert(entries.take(k + 1) =~= entries.take(k as int).push(entries[k as int]));
            lemma_join_push(entries.take(k as int), entries[k as int]);
            assert(json@ =~= base2 + join_comma(entries.take(k + 1)));
        }
        k = k + 1;
    }
    proof {
        assert(entries.take(nreq as int) =~= entries);
    }

    json.append("]}");
    proof {
        reveal(compact_tool_json);
    }
    assert(final(json)@ =~= old(json)@ + compact_tool_json(tool@));
}

/// Generate the compact schema JSON document for a whole catalog.
pub fn generate_compact_schema(schema: &McpSchema) -> (r: String)
    ensures
        r@ == compact_schema_json(schema@),
{
    let mut json = String::new();
    json.append("{\"v\":\"");
    json.append(crate::PROTOCOL_VERSION);
    json.append("\",\"name\":\"");
    escape_json_into(schema.name.as_str(), &mut json);
    json.append("\",\"tools\":[");

    let ghost items = schema@.tools.map_values(|t: ToolV| compact_tool_json(t));
    let ghost base = json@;
    let n = schema.tools.len();
    let mut i: usize = 0;
    proof {
        assert(base + join_comma(items.take(0)) =~= base);
    }
    while i < n
        invariant
            n == schema@.tools.len(),
            i <= n,
            items == schema@.tools.map_values(|t: ToolV| compact_tool_json(t)),
            json@ == base + join_comma(items.take(i as int)),
        decreases n - i,
    {
        if i > 0 {
            json.append(",");
        }
        generate_tool_json(&schema.tools[i], &mut json);
        proof {
            assert(schema@.tools[i as int] == schema.tools@[i as int]@);
            assert(items[i as int] == compact_tool_json(schema@.tools[i as int]));
            assert(items.take(i + 1) =~= items.take(i as int).push(items[i as int]));
            lemma_join_push(items.take(i as int), items[i as int]);
            assert(json@ =~= base + join_comma(items.take(i + 1)));
        }
        i = i + 1;
    }
    proof {
        assert(items.take(n as int) =~= items);
    }
    json.append("]}");
    assert(json@ =~= compact_schema_json(schema@));
    json
}

/// Generate the compact schema document as bytes for `return_data`.
pub fn generate_schema_bytes(schema: &McpSchema) -> (r: Vec<u8>)
    ensures
        r@ == vstd::utf8::encode_utf8(compact_schema_json(schema@)),
{
    let json = generate_compact_schema(schema);
    json.as_str().as_bytes_vec()
}

/// Verbose parameter entry of an account: full keys, optional flags and
/// description.
pub open spec fn verbose_acc_item(a: AccountMetaV) -> Seq<char> {
    "\""@ + escape_str(a.name) + "\":{\"type\":\"pubkey\""@ + (if a.is_signer {
        ",\"signer\":true"@
    } else {
        Seq::<char>::empty()
    }) + (if a.is_writable {
        ",\"writable\":true"@
    } else {
        Seq::<char>::empty()
    }) + (match a.description {
        Option::Some(d) => ",\"description\":\""@ + escape_str(d) + "\""@,
        Option::None => Seq::<char>::empty(),
    }) + "}"@
}

/// Verbose parameter entry of an argument: its type and optional description.
pub open spec fn verbose_arg_item(g: ArgV) -> Seq<char> {
    "\""@ + escape_str(g.name) + "\":{\"type\":\""@ + compact_name_spec(g.arg_type) + "\""@ + (
    match g.description {
        Option::Some(d) => ",\"description\":\""@ + escape_str(d) + "\""@,
        Option::None => Seq::<char>::empty(),
    }) + "}"@
}

/// All verbose parameter entries of a tool, accounts before arguments.
pub open spec fn verbose_params(t: ToolV) -> Seq<Seq<char>> {
    t.accounts.map_values(|a: AccountMetaV| verbose_acc_item(a)) + t.args.map_values(
        |g: ArgV| verbose_arg_item(g),
    )
}

/// The verbose JSON rendering of one tool.
#[verifier::opaque]
pub open spec fn verbose_tool_json(t: ToolV) -> Seq<char> {
    "{\"name\":\""@ + escape_str(t.name) + "\""@ + (match t.description {
        Option::Some(d) => ",\"description\":\""@ + escape_str(d) + "\""@,
        Option::None => Seq::<char>::empty(),
    }) + ",\"discriminator\":\""@ + disc_hex_chars(t.discriminator) + "\""@ + (
    if t.accounts.len() == 0 && t.args.len() == 0 {
        Seq::<char>::empty()
    } else {
        ",\"parameters\":{"@ + join_comma(verbose_params(t)) + "}"@
    }) + "}"@
}

/// The JSON rendering of one paginated page: at most one tool, and a
/// `nextCursor` exactly when more tools follow.
#[verifier::opaque]
pub open spec fn page_json(s: SchemaV, cursor: int) -> Seq<char> {
    "{\"v\":\""@ + "2024-11-05"@ + "\",\"name\":\""@ + escape_str(s.name) + "\",\"tools\":["@ + (
    if 0 <= cursor < s.tools.len() {
        verbose_tool_json(s.tools[cursor])
    } else {
        Seq::<char>::empty()
    }) + "]"@ + (if 0 <= cursor && cursor + 1 < s.tools.len() {
        ",\"nextCursor\":\""@ + cursor_str(cursor + 1) + "\""@
    } else {
        Seq::<char>::empty()
    }) + "}"@
}

/// Append the verbose parameter entry for one account.
fn push_verbose_acc(json: &mut String, acc: &McpAccountMeta)
    ensures
        final(json)@ == old(json)@ + verbose_acc_item(acc@),
{
    json.append("\"");
    escape_json_into(acc.name.as_str(), json);
    json.append("\":{\"type\":\"pubkey\"");
    if acc.is_signer {
        json.append(",\"signer\":true");
    }
    if acc.is_writable {
        json.append(",\"writable\":true");
    }
    match &acc.description {
        Some(desc) => {
            json.append(",\"description\":\"");
            escape_json_into(desc.as_str(), json);
            json.append("\"");
        },
        None => {},
    }
    json.append("}");
    assert(final(json)@ =~= old(json)@ + verbose_acc_item(acc@));
}

/// Append the verbose parameter entry for one argument.
fn push_verbose_arg(json: &mut String, arg: &McpArg)
    ensures
        final(json)@ == old(json)@ + verbose_arg_item(arg@),
{
    json.append("\"");
    escape_json_into(arg.name.as_str(), json);
    json.append("\":{\"type\":\"");
    json.append(arg.arg_type.compact_name());
    json.append("\"");
    match &arg.description {
        Some(desc) => {
            json.append(",\"description\":\"");
            escape_json_into(desc.as_str(), json);
            json.append("\"");
        },
        None => {},
    }
    json.append("}");
    assert(final(json)@ =~= old(json)@ + verbose_arg_item(arg@));
}

/// Append the verbose JSON for a single tool.
#[verifier::rlimit(100)]
pub fn generate_verbose_tool(tool: &McpTool, json: &mut String)
    ensures
        final(json)@ == old(json)@ + verbose_tool_json(tool@),
{
    json.append("{\"name\":\"");
    escape_json_into(tool.name.as_str(), json);
    json.append("\"");

    match &tool.description {
        Some(desc) => {
            json.append(",\"description\":\"");
            escape_json_into(desc.as_str(), json);
            json.append("\"");
        },
        None => {},
    }

    json.append(",\"discriminator\":\"");
    push_disc_hex(json, &tool.discriminator);
    json.append("\"");

    if tool.accounts.len() == 0 && tool.args.len() == 0 {
        json.append("}");
        proof {
            reveal(verbose_tool_json);
        }
        assert(final(json)@ =~= old(json)@ + verbose_tool_json(tool@));
        return ;
    }

    json.append(",\"parameters\":{");

    let ghost items = verbose_params(tool@);
    let ghost base = json@;
    let na = tool.accounts.len();
    let ng = tool.args.len();

    let mut i: usize = 0;
    proof {
        assert(base + join_comma(items.take(0)) =~= base);
    }
    while i < na
        invariant
            na == tool@.accounts.len(),
            ng == tool@.args.len(),
            i <= na,
            items == verbose_params(tool@),
            json@ == base + join_comma(items.take(i as int)),
        decreases na - i,
    {
        if i > 0 {
            json.append(",");
        }
        push_verbose_acc(json, &tool.accounts[i]);
        proof {
            assert(tool@.accounts[i as int] == tool.accounts@[i as int]@);
            assert(items[i as int] == verbose_acc_item(tool@.accounts[i as int]));
            assert(items.take(i + 1) =~= items.take(i as int).push(items[i as int]));
            lemma_join_push(items.take(i as int), items[i as int]);
            assert(json@ =~= base + join_comma(items.take(i + 1)));
        }
        i = i + 1;
    }

    let mut j: usize = 0;
    while j < ng
        invariant
            na == tool@.accounts.len(),
            ng == tool@.args.len(),
            j <= ng,
            items == verbose_params(tool@),
            json@ == base + join_comma(items.take(na + j)),
        decreases ng - j,
    {
        if na > 0 || j > 0 {
            json.append(",");
        }
        push_verbose_arg(json, &tool.args[j]);
        proof {
            assert(tool@.args[j as int] == tool.args@[j as int]@);
            assert(items[na + j] == verbose_arg_item(tool@.args[j as int]));
            assert(items.take(na + j + 1) =~= items.take(na + j).push(items[na + j]));
            lemma_join_push(items.take(na + j), items[na + j]);
            assert(json@ =~= base + join_comma(items.take(na + j + 1)));
        }
        j = j + 1;
    }

    proof {
        assert(items.take((na + ng) as int) =~= items);
    }
    json.append("}");
    json.append("}");
    proof {
        reveal(verbose_tool_json);
    }
    assert(final(json)@ =~= old(json)@ + verbose_tool_json(tool@));
}

/// Generate one page of the paginated schema: the tool at `cursor` (if any)
/// with full descriptions, and a `nextCursor` exactly when more tools follow.
pub fn generate_paginated_schema(schema: &McpSchema, cursor: u8) -> (r: String)
    ensures
        r@ == page_json(schema@, cursor as int),
{
    let cursor_idx = cursor as usize;

    let mut json = String::new();
    json.append("{\"v\":\"");
    json.append(crate::PROTOCOL_VERSION);
    json.append("\",\"name\":\"");
    escape_json_into(schema.name.as_str(), &mut json);
    json.append("\",\"tools\":[");

    if cursor_idx < schema.tools.len() {
        generate_verbose_tool(&schema.tools[cursor_idx], &mut json);
        proof {
            assert(schema@.tools[cursor_idx as int] == schema.tools@[cursor_idx as int]@);
        }
    }

    json.append("]");

    if cursor_idx + 1 < schema.tools.len() {
        json.append(",\"nextCursor\":\"");
        let next = cursor_idx + 1;
        let mut tmp = [0u8; 3];
        let s = format_cursor(next, &mut tmp);
        json.append(s.as_str());
        json.append("\"");
    }

    json.append("}");
    proof {
        reveal(page_json);
    }
    assert(json@ =~= page_json(schema@, cursor as int));
    json
}

/// Generate one paginated page as bytes for `return_data`.
pub fn generate_paginated_schema_bytes(schema: &McpSchema, cursor: u8) -> (r: Vec<u8>)
    ensures
        r@ == vstd::utf8::encode_utf8(page_json(schema@, cursor as int)),
{
    let json = generate_paginated_schema(schema, cursor);
    json.as_str().as_bytes_vec()
}

/// `min(x, usize::MAX)`: estimator sums saturate at the machine limit.
pub open spec fn clamp_usize(x: int) -> int {
    if x <= usize::MAX as int {
        x
    } else {
        usize::MAX as int
    }
}

/// Saturating addition on `usize`.
fn sat_add(a: usize, b: usize) -> (r: usize)
    ensures
        r as int == clamp_usize(a + b),
{
    if a > usize::MAX - b {
        usize::MAX
    } else {
        a + b
    }
}

/// Estimated serialized size of a sequence of accounts.
pub open spec fn est_accounts(s: Seq<AccountMetaV>) -> int
    decreases s.len(),
{
    if s.len() == 0 {
        0
    } else {
        est_accounts(s.drop_last()) + s.last().name.len() + 15
    }
}

/// Estimated serialized size of a sequence of arguments.
pub open spec fn est_args(s: Seq<ArgV>) -> int
    decreases s.len(),
{
    if s.len() == 0 {
        0
    } else {
        est_args(s.drop_last()) + s.last().name.len() + 10
    }
}

/// Estimated serialized size of one tool: framing overhead, name, hex
/// discriminator, optional description, and its accounts and arguments.
pub open spec fn est_tool(t: ToolV) -> int {
    30 + t.name.len() + 16 + (match t.description {
        Option::Some(d) => d.len() + 6int,
        Option::None => 0int,
    }) + est_accounts(t.accounts) + est_args(t.args)
}

/// Estimated serialized size of all tools of a schema.
pub open spec fn est_tools(s: Seq<ToolV>) -> int
    decreases s.len(),
{
    if s.len() == 0 {
        0
    } else {
        est_tools(s.drop_last()) + clamp_usize(est_tool(s.last()))
    }
}

/// Estimated serialized size of a whole schema.
pub open spec fn est_schema(s: SchemaV) -> int {
    50 + s.name.len() + est_tools(s.tools)
}

/// Estimate the size of a single tool's JSON representation, saturating at
/// `usize::MAX`; `None` estimates to 0.
///
/// The estimate is conservative and approximate, for authoring-time checks;
/// runtime behavior never depends on it.
pub fn estimate_single_tool_size(tool: Option<&McpTool>) -> (r: usize)
    ensures
        r as int == match tool {
            Option::Some(t) => clamp_usize(est_tool(t@)),
            Option::None => 0int,
        },
{
    let t = match tool {
        Some(t) => t,
        None => { return 0; },
    };

    let mut size: usize = 30;
    size = sat_add(size, t.name.as_str().unicode_len());
    size = sat_add(size, 16);

    match &t.description {
        Some(desc) => {
            size = sat_add(size, desc.as_str().unicode_len());
            size = sat_add(size, 6);
        },
        None => {},
    }

    let ghost head = 30 + t@.name.len() + 16 + (match t@.description {
        Option::Some(d) => d.len() + 6int,
        Option::None => 0int,
    });
    assert(size as int == clamp_usize(head));

    let na = t.accounts.len();
    let mut i: usize = 0;
    proof {
        assert(t@.accounts.take(0) =~= Seq::<AccountMetaV>::empty());
    }
    while i < na
        invariant
            na == t@.accounts.len(),
            i <= na,
            head == 30 + t@.name.len() + 16 + (match t@.description {
                Option::Some(d) => d.len() + 6int,
                Option::None => 0int,
            }),
            size as int == clamp_usize(head + est_accounts(t@.accounts.take(i as int))),
        decreases na - i,
    {
        size = sat_add(size, t.accounts[i].name.as_str().unicode_len());
        size = sat_add(size, 15);
        proof {
            assert(t@.accounts.take(i + 1).drop_last() =~= t@.accounts.take(i as int));
            assert(t@.accounts.take(i + 1).last() == t@.accounts[i as int]);
            assert(t@.accounts[i as int] == t.accounts@[i as int]@);
        }
        i = i + 1;
    }
    proof {
        assert(t@.accounts.take(na as int) =~= t@.accounts);
    }

    let ng = t.args.len();
    let mut j: usize = 0;
    proof {
        assert(t@.args.take(0) =~= Seq::<ArgV>::empty());
    }
    while j < ng
        invariant
            ng == t@.args.len(),
            j <= ng,
            head == 30 + t@.name.len() + 16 + (match t@.description {
                Option::Some(d) => d.len() + 6int,
                Option::None => 0int,
            }),
            size as int == clamp_usize(
                head + est_accounts(t@.accounts) + est_args(t@.args.take(j as int)),
            ),
        decreases ng - j,
    {
        size = sat_add(size, t.args[j].name.as_str().unicode_len());
        size = sat_add(size, 10);
        proof {
            assert(t@.args.take(j + 1).drop_last() =~= t@.args.take(j as int));
            assert(t@.args.take(j + 1).last() == t@.args[j as int]);
            assert(t@.args[j as int] == t.args@[j as int]@);
        }
        j = j + 1;
    }
    proof {
        assert(t@.args.take(ng as int) =~= t@.args);
    }
    size
}

/// Estimate a schema's serialized size without generating the JSON,
/// saturating at `usize::MAX`.
///
/// The estimate is conservative and approximate, for authoring-time checks;
/// runtime behavior never depends on it.
pub fn estimate_schema_size(schema: &McpSchema) -> (r: usize)
    ensures
        r as int == clamp_usize(est_schema(schema@)),
{
    let mut size: usize = 50;
    size = sat_add(size, schema.name.as_str().unicode_len());

    let n = schema.tools.len();
    let mut i: usize = 0;
    proof {
        assert(schema@.tools.take(0) =~= Seq::<ToolV>::empty());
    }
    while i < n
        invariant
            n == schema@.tools.len(),
            i <= n,
            size as int == clamp_usize(
                50 + schema@.name.len() + est_tools(schema@.tools.take(i as int)),
            ),
        decreases n - i,
    {
        let t = estimate_single_tool_size(Some(&schema.tools[i]));
        size = sat_add(size, t);
        proof {
            assert(schema@.tools.take(i + 1).drop_last() =~= schema@.tools.take(i as int));
            assert(schema@.tools.take(i + 1).last() == schema@.tools[i as int]);
            assert(schema@.tools[i as int] == schema.tools@[i as int]@);
        }
        i = i + 1;
    }
    proof {
        assert(schema@.tools.take(n as int) =~= schema@.tools);
    }
    size
}

} // verus!
