//! Walking a paginated schema: the aggregator decides which page to fetch
//! next and folds each fetched page into the combined catalog.
//!
//! The caller performs the fetches (they are network work); this state
//! machine holds every decision: the next cursor, the merge, and when to
//! stop — on a page without `nextCursor`, or at the safety cap of 100
//! follow-up pages, the liveness guard against a non-terminating server.

use vstd::prelude::*;
use crate::client::{parse_schema, McpClientError, ParsedSchema, ParsedSchemaV};
use crate::decode::parse_schema_doc;
use crate::json::page_json;
use crate::schema::SchemaV;

verus! {

/// Spec-level aggregator state.
pub struct AggregatorV {
    pub schema: Option<ParsedSchemaV>,
    pub cursor: u8,
    pub done: bool,
}

/// The state before any page was fetched: the next fetch is page 0.
pub open spec fn agg_init() -> AggregatorV {
    AggregatorV { schema: None, cursor: 0, done: false }
}

/// Fold one page into the combined schema: its tools are appended and its
/// cursor replaces the old one.
pub open spec fn merge_page(s0: ParsedSchemaV, p: ParsedSchemaV) -> ParsedSchemaV {
    ParsedSchemaV {
        version: s0.version,
        name: s0.name,
        tools: s0.tools + p.tools,
        next_cursor: p.next_cursor,
    }
}

/// One aggregator step over a successfully parsed page: merge, advance the
/// cursor (saturating), and stop when the page carries no `nextCursor` or
/// the safety cap is passed.
pub open spec fn agg_step(st: AggregatorV, p: ParsedSchemaV) -> AggregatorV {
    let merged = match st.schema {
        Some(s0) => merge_page(s0, p),
        None => p,
    };
    let c2: u8 = if st.cursor == 255 {
        255u8
    } else {
        (st.cursor + 1) as u8
    };
    AggregatorV { schema: Some(merged), cursor: c2, done: merged.next_cursor is None || c2 > 100 }
}

/// The aggregator for `list_tools_full`: feed it pages until it asks for
/// none.
pub struct Aggregator {
    schema: Option<ParsedSchema>,
    cursor: u8,
    done: bool,
}

impl View for Aggregator {
    type V = AggregatorV;

    closed spec fn view(&self) -> AggregatorV {
        AggregatorV {
            schema: match self.schema {
                Some(ref s) => Some(s@),
                None => None,
            },
            cursor: self.cursor,
            done: self.done,
        }
    }
}

impl Aggregator {
    /// Start a walk at page 0.
    pub fn new() -> (r: Self)
        ensures
            r@ == agg_init(),
    {
        Aggregator { schema: None, cursor: 0, done: false }
    }

    /// The cursor to fetch next, or `None` when the walk is over.
    pub fn next_action(&self) -> (r: Option<u8>)
        ensures
            r == (if self@.done {
                None::<u8>
            } else {
                Some(self@.cursor)
            }),
    {
        if self.done {
            None
        } else {
            Some(self.cursor)
        }
    }

    /// Fold one fetched page (as text) into the walk.
    ///
    /// Fails exactly when the page does not parse; the state is then
    /// unchanged, so the caller can abort.
    pub fn feed(&mut self, page_text: &str) -> (r: Result<(), McpClientError>)
        ensures
            r is Ok <==> parse_schema_doc(page_text@) is Some,
            r matches Ok(u) ==> final(self)@ == agg_step(
                old(self)@,
                parse_schema_doc(page_text@)->Some_0,
            ),
            r matches Err(e) ==> final(self)@ == old(self)@ && e matches
                McpClientError::ParseSchema(_),
    {
        let mut page = match parse_schema(page_text) {
            Ok(p) => p,
            Err(e) => { return Err(e); },
        };
        let c2: u8 = if self.cursor == 255 {
            255
        } else {
            self.cursor + 1
        };
        match &mut self.schema {
            Some(s0) => {
                s0.tools.append(&mut page.tools);
                s0.next_cursor = page.next_cursor;
                proof {
                    assert(final(s0)@.tools =~= old(self)@.schema->0.tools + parse_schema_doc(
                        page_text@,
                    )->Some_0.tools);
                }
            },
            None => {
                self.schema = Some(page);
            },
        }
        self.cursor = c2;
        self.done = match &self.schema {
            Some(s) => s.next_cursor.is_none() || c2 > 100,
            None => true,
        };
        proof {
            assert(final(self)@.schema->0.tools =~= agg_step(
                old(self)@,
                parse_schema_doc(page_text@)->Some_0,
            ).schema->0.tools);
        }
        Ok(())
    }

    /// The combined schema, once the walk is over; fails when no page was
    /// ever fed.
    pub fn finish(self) -> (r: Result<ParsedSchema, McpClientError>)
        ensures
            self@.schema matches Some(sv) ==> r matches Ok(v) && v@ == sv,
            self@.schema is None ==> (r matches Err(e) && e matches McpClientError::NoReturnData),
    {
        match self.schema {
            Some(s) => Ok(s),
            None => Err(McpClientError::NoReturnData),
        }
    }
}

/// The parsed form of one generated page.
pub open spec fn page_parsed(sc: SchemaV, c: int) -> ParsedSchemaV {
    parse_schema_doc(page_json(sc, c))->Some_0
}

/// The aggregator state after `k` fetches of the schema's own pages, each
/// taken at the cursor the aggregator asked for.
pub open spec fn agg_run(sc: SchemaV, k: nat) -> AggregatorV
    decreases k,
{
    if k == 0 {
        agg_init()
    } else {
        let st = agg_run(sc, (k - 1) as nat);
        agg_step(st, page_parsed(sc, st.cursor as int))
    }
}

/// Pagination termination: walking an N-tool schema fetches exactly N
/// pages.  After k < N fetches the walk is not over and asks for page k;
/// after the N-th fetch it is over, the combined catalog holds all N tools
/// under their names, in order, and the final page carried no `nextCursor`.
///
/// The safety cap bounds the walk, so this holds for schemas within the
/// cap.
#[verifier::rlimit(100)]
pub proof fn lemma_pagination_termination(sc: SchemaV, k: int)
    requires
        1 <= sc.tools.len() <= 100,
        forall|j: int| 0 <= j < sc.tools.len() ==> (#[trigger] sc.tools[j]).discriminator.len()
            == 8,
        0 <= k <= sc.tools.len(),
    ensures
        agg_run(sc, k as nat).cursor == k,
        agg_run(sc, k as nat).done <==> k == sc.tools.len(),
        k < sc.tools.len() ==> parse_schema_doc(page_json(sc, k)) is Some,
        k > 0 ==> (agg_run(sc, k as nat).schema matches Some(sv) && sv.tools.len() == k
            && sv.name == sc.name && (sv.next_cursor is Some <==> k < sc.tools.len()) && (
        forall|j: int| 0 <= j < k ==> (#[trigger] sv.tools[j]).name == sc.tools[j].name)),
    decreases k,
{
    let n = sc.tools.len() as int;
    if k == 0 {
        crate::roundtrip::lemma_page_round(sc, 0);
    } else {
        lemma_pagination_termination(sc, k - 1);
        let st = agg_run(sc, (k - 1) as nat);
        crate::roundtrip::lemma_page_round(sc, k - 1);
        let p = page_parsed(sc, k - 1);
        assert(p.tools.len() == 1);
        assert(p.tools[0].name == sc.tools[k - 1].name);
        assert(p.next_cursor is Some <==> k < n);
        let st2 = agg_step(st, p);
        let sv2 = st2.schema->0;
        if k - 1 > 0 {
            let sv = st.schema->0;
            assert(sv2.tools.len() == sv.tools.len() + 1);
            assert forall|j: int| 0 <= j < k implies (#[trigger] sv2.tools[j]).name
                == sc.tools[j].name by {
                if j < k - 1 {
                    assert(sv2.tools[j] == sv.tools[j]);
                } else {
                    assert(sv2.tools[j] == p.tools[0]);
                }
            }
        } else {
            assert(sv2.tools =~= p.tools);
        }
        if k < n {
            crate::roundtrip::lemma_page_round(sc, k);
        }
    }
}

} // verus!
