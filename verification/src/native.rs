//! Helpers for programs that dispatch instructions by discriminator: testing
//! for the `list_tools` call and reading its optional cursor byte.

use vstd::prelude::*;
use crate::LIST_TOOLS_DISCRIMINATOR;
use crate::schema::McpToolBuilder;

verus! {

/// Instruction data addresses `list_tools` when it is at least 8 bytes long
/// and starts with the `list_tools` discriminator.
pub open spec fn is_list_tools_spec(data: Seq<u8>) -> bool {
    data.len() >= 8 && data.subrange(0, 8) == LIST_TOOLS_DISCRIMINATOR@
}

/// Check whether instruction data matches the `list_tools` discriminator.
pub fn is_list_tools(data: &[u8]) -> (r: bool)
    ensures
        r == is_list_tools_spec(data@),
{
    if data.len() < 8 {
        return false;
    }
    let mut i: usize = 0;
    while i < 8
        invariant
            data@.len() >= 8,
            i <= 8,
            forall|k: int| 0 <= k < i ==> data@[k] == LIST_TOOLS_DISCRIMINATOR@[k],
        decreases 8 - i,
    {
        if data[i] != LIST_TOOLS_DISCRIMINATOR[i] {
            assert(data@.subrange(0, 8)[i as int] != LIST_TOOLS_DISCRIMINATOR@[i as int]);
            return false;
        }
        i = i + 1;
    }
    assert(data@.subrange(0, 8) =~= LIST_TOOLS_DISCRIMINATOR@);
    true
}

/// The cursor carried by `list_tools` instruction data: the byte after the
/// discriminator, or 0 when it is absent.
pub open spec fn cursor_of_data(data: Seq<u8>) -> u8 {
    if data.len() > 8 {
        data[8]
    } else {
        0
    }
}

/// Extract the cursor from `list_tools` instruction data.
pub fn get_list_tools_cursor(data: &[u8]) -> (r: u8)
    ensures
        r == cursor_of_data(data@),
{
    if data.len() > 8 {
        data[8]
    } else {
        0
    }
}

/// The wire form of a `list_tools` fetch: the discriminator, with the
/// cursor byte appended only when the cursor is non-zero.
pub open spec fn list_tools_data_spec(cursor: u8) -> Seq<u8> {
    if cursor > 0 {
        LIST_TOOLS_DISCRIMINATOR@.push(cursor)
    } else {
        LIST_TOOLS_DISCRIMINATOR@
    }
}

/// Build the instruction data that fetches one `list_tools` page.
///
/// The encode side matches the decode side: the data addresses `list_tools`
/// and carries the cursor back out.
pub fn list_tools_data(cursor: u8) -> (r: Vec<u8>)
    ensures
        r@ == list_tools_data_spec(cursor),
        is_list_tools_spec(r@),
        cursor_of_data(r@) == cursor,
{
    let disc = LIST_TOOLS_DISCRIMINATOR;
    let mut data: Vec<u8> = Vec::new();
    data.extend_from_slice(disc.as_slice());
    if cursor > 0 {
        data.push(cursor);
    }
    assert(data@.subrange(0, 8) =~= LIST_TOOLS_DISCRIMINATOR@);
    data
}

/// Start building a tool with the given name.
pub fn tool(name: &str) -> (r: McpToolBuilder)
    ensures
        r@.name == name@,
        r@.description is None,
        r@.accounts.len() == 0,
        r@.args.len() == 0,
{
    McpToolBuilder::new(name)
}

} // verus!
