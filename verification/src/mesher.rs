//! The mesh-file reader: a line-based state machine over the named sections
//! of the mesher's output.
//!
//! The file arrives as bytes.  Only the node and element sections are
//! consumed: node records keep their raw coordinate line (the coordinates
//! themselves are floating-point text, parsed by the shell), node tags are
//! remapped from the mesher's 1-based tags to 0-based indices, and only the
//! element rows of two-dimensional entities are retained.  The node list is
//! finally ordered by remapped index.

use vstd::prelude::*;
use vstd::string::StringExecFns;
use crate::datatypes::Element;
use crate::error::MagnetiteError;
use crate::fp;
use crate::text::{
    spec_parse_usize, spec_split, spec_starts_with, spec_trim, parse_usize_token, split_bytes,
    starts_with_bytes, trim_bytes, views_of,
};

verus! {

/// A node as read from the file: its raw coordinate line.
#[derive(Debug)]
pub struct RawNode {
    pub line: Vec<u8>,
}

/// The marker beginning every section-closing line: `$End`.
pub open spec fn end_marker() -> Seq<u8> {
    seq![36u8, 69u8, 110u8, 100u8]
}

/// The marker of the entity section: `$Entities`.
pub open spec fn entities_marker() -> Seq<u8> {
    seq![36u8, 69u8, 110u8, 116u8, 105u8, 116u8, 105u8, 101u8, 115u8]
}

/// The marker beginning the node section: `$Node`.
pub open spec fn node_marker() -> Seq<u8> {
    seq![36u8, 78u8, 111u8, 100u8, 101u8]
}

/// The marker of the element section: `$Elements`.
pub open spec fn elements_marker() -> Seq<u8> {
    seq![36u8, 69u8, 108u8, 101u8, 109u8, 101u8, 110u8, 116u8, 115u8]
}

fn marker_end() -> (r: Vec<u8>)
    ensures
        r@ == end_marker(),
{
    let mut v: Vec<u8> = Vec::new();
    v.push(36); v.push(69); v.push(110); v.push(100);
    proof {
        assert(v@ =~= end_marker());
    }
    v
}

fn marker_entities() -> (r: Vec<u8>)
    ensures
        r@ == entities_marker(),
{
    let mut v: Vec<u8> = Vec::new();
    v.push(36); v.push(69); v.push(110); v.push(116); v.push(105);
    v.push(116); v.push(105); v.push(101); v.push(115);
    proof {
        assert(v@ =~= entities_marker());
    }
    v
}

fn marker_node() -> (r: Vec<u8>)
    ensures
        r@ == node_marker(),
{
    let mut v: Vec<u8> = Vec::new();
    v.push(36); v.push(78); v.push(111); v.push(100); v.push(101);
    proof {
        assert(v@ =~= node_marker());
    }
    v
}

fn marker_elements() -> (r: Vec<u8>)
    ensures
        r@ == elements_marker(),
{
    let mut v: Vec<u8> = Vec::new();
    v.push(36); v.push(69); v.push(108); v.push(101); v.push(109);
    v.push(101); v.push(110); v.push(116); v.push(115);
    proof {
        assert(v@ =~= elements_marker());
    }
    v
}

/// Where the scanner stands, in specification form.
pub enum ScanModeAbs {
    Limbo,
    Entities,
    NodesSection { header_done: bool },
    NodesTags { total: usize, tags: Seq<usize> },
    NodesCoords { tags: Seq<usize>, at: usize },
    ElementsSection { header_done: bool },
    ElementRows { dim: usize, remaining: usize },
    Failed,
}

/// The whole scanner state, in specification form.
pub struct ScanAbs {
    pub mode: ScanModeAbs,
    pub nodes: Seq<Seq<u8>>,
    pub indexes: Seq<usize>,
    pub elements: Seq<Element>,
    pub error: Option<Seq<char>>,
}

/// Where the scanner stands.
pub enum ScanMode {
    Limbo,
    Entities,
    NodesSection { header_done: bool },
    NodesTags { total: usize, tags: Vec<usize> },
    NodesCoords { tags: Vec<usize>, at: usize },
    ElementsSection { header_done: bool },
    ElementRows { dim: usize, remaining: usize },
    Failed,
}

/// The whole scanner state.
pub struct ScanState {
    pub mode: ScanMode,
    pub nodes: Vec<RawNode>,
    pub indexes: Vec<usize>,
    pub elements: Vec<Element>,
    pub error: Option<String>,
}

impl ScanMode {
    /// The specification form of the mode.
    pub open spec fn view(&self) -> ScanModeAbs {
        match self {
            ScanMode::Limbo => ScanModeAbs::Limbo,
            ScanMode::Entities => ScanModeAbs::Entities,
            ScanMode::NodesSection { header_done } => ScanModeAbs::NodesSection {
                header_done: *header_done,
            },
            ScanMode::NodesTags { total, tags } => ScanModeAbs::NodesTags {
                total: *total,
                tags: tags@,
            },
            ScanMode::NodesCoords { tags, at } => ScanModeAbs::NodesCoords {
                tags: tags@,
                at: *at,
            },
            ScanMode::ElementsSection { header_done } => ScanModeAbs::ElementsSection {
                header_done: *header_done,
            },
            ScanMode::ElementRows { dim, remaining } => ScanModeAbs::ElementRows {
                dim: *dim,
                remaining: *remaining,
            },
            ScanMode::Failed => ScanModeAbs::Failed,
        }
    }
}

impl View for ScanState {
    type V = ScanAbs;

    open spec fn view(&self) -> ScanAbs {
        ScanAbs {
            mode: self.mode.view(),
            nodes: self.nodes@.map_values(|r: RawNode| r.line@),
            indexes: self.indexes@,
            elements: self.elements@,
            error: match self.error {
                Option::None => Option::None,
                Option::Some(s) => Option::Some(s@),
            },
        }
    }
}

/// The scanner before any line: in limbo with everything empty.
pub open spec fn spec_scan_init() -> ScanAbs {
    ScanAbs {
        mode: ScanModeAbs::Limbo,
        nodes: Seq::empty(),
        indexes: Seq::empty(),
        elements: Seq::empty(),
        error: Option::None,
    }
}

/// The state after a failure: the mode and message record it, everything
/// else is kept; failures are absorbing.
pub open spec fn spec_fail(st: ScanAbs, msg: Seq<char>) -> ScanAbs {
    ScanAbs { mode: ScanModeAbs::Failed, error: Option::Some(msg), ..st }
}

/// Every token parsed as a decimal integer, if all of them parse.
pub open spec fn spec_parse_all(ts: Seq<Seq<u8>>) -> Option<Seq<usize>>
    decreases ts.len(),
{
    if ts.len() == 0 {
        Option::Some(Seq::empty())
    } else {
        match spec_parse_all(ts.drop_last()) {
            Option::None => Option::None,
            Option::Some(vs) => match spec_parse_usize(ts.last()) {
                Option::None => Option::None,
                Option::Some(v) => Option::Some(vs.push(v)),
            },
        }
    }
}

/// One step of the scanner on one line.
///
/// Inside a tag, coordinate or element-row block the line is consumed by
/// the block.  Everywhere else empty lines are skipped, a `$End` line
/// returns the scanner to limbo, and section markers open their sections;
/// a section's first line (its own metadata) is skipped, and each block
/// header names how many lines its block holds.
pub open spec fn spec_step(st: ScanAbs, line: Seq<u8>) -> ScanAbs {
    match st.mode {
        ScanModeAbs::Failed => st,
        ScanModeAbs::NodesTags { total, tags } => match spec_parse_usize(line) {
            Option::None => spec_fail(st, "mesh file holds a non-integer node tag"@),
            Option::Some(tag) => if tag == 0 {
                spec_fail(st, "mesh file holds a node tag of zero"@)
            } else {
                let tags2 = tags.push(tag);
                if tags2.len() == total {
                    ScanAbs { mode: ScanModeAbs::NodesCoords { tags: tags2, at: 0 }, ..st }
                } else {
                    ScanAbs { mode: ScanModeAbs::NodesTags { total, tags: tags2 }, ..st }
                }
            },
        },
        ScanModeAbs::NodesCoords { tags, at } => {
            if spec_split(line, 32).len() < 2 {
                spec_fail(st, "mesh file holds a coordinate line with fewer than two entries"@)
            } else {
                let idx = (tags[at as int] - 1) as usize;
                let st2 = ScanAbs {
                    nodes: st.nodes.push(line),
                    indexes: st.indexes.push(idx),
                    ..st
                };
                if at + 1 == tags.len() {
                    ScanAbs {
                        mode: ScanModeAbs::NodesSection { header_done: true },
                        ..st2
                    }
                } else {
                    ScanAbs {
                        mode: ScanModeAbs::NodesCoords { tags, at: (at + 1) as usize },
                        ..st2
                    }
                }
            }
        },
        ScanModeAbs::ElementRows { dim, remaining } => {
            match spec_parse_all(spec_split(spec_trim(line), 32)) {
                Option::None => spec_fail(st, "mesh file holds a non-integer element entry"@),
                Option::Some(vals) => {
                    if dim == 2 && vals.len() < 4 {
                        spec_fail(st, "mesh file holds a malformed element line"@)
                    } else if dim == 2 && (vals[1] == 0 || vals[2] == 0 || vals[3] == 0) {
                        spec_fail(st, "mesh file holds an element node tag of zero"@)
                    } else {
                        let st2 = if dim == 2 {
                            ScanAbs {
                                elements: st.elements.push(Element {
                                    nodes: [
                                        (vals[1] - 1) as usize,
                                        (vals[2] - 1) as usize,
                                        (vals[3] - 1) as usize,
                                    ],
                                    stress: Option::None,
                                }),
                                ..st
                            }
                        } else {
                            st
                        };
                        if remaining == 1 {
                            ScanAbs {
                                mode: ScanModeAbs::ElementsSection { header_done: true },
                                ..st2
                            }
                        } else {
                            ScanAbs {
                                mode: ScanModeAbs::ElementRows {
                                    dim,
                                    remaining: (remaining - 1) as usize,
                                },
                                ..st2
                            }
                        }
                    }
                },
            }
        },
        _ => {
            if line.len() == 0 {
                st
            } else if spec_starts_with(line, end_marker()) {
                ScanAbs { mode: ScanModeAbs::Limbo, ..st }
            } else {
                match st.mode {
                    ScanModeAbs::Limbo => {
                        if spec_starts_with(line, entities_marker()) {
                            ScanAbs { mode: ScanModeAbs::Entities, ..st }
                        } else if spec_starts_with(line, node_marker()) {
                            ScanAbs {
                                mode: ScanModeAbs::NodesSection { header_done: false },
                                ..st
                            }
                        } else if spec_starts_with(line, elements_marker()) {
                            ScanAbs {
                                mode: ScanModeAbs::ElementsSection { header_done: false },
                                ..st
                            }
                        } else {
                            st
                        }
                    },
                    ScanModeAbs::Entities => st,
                    ScanModeAbs::NodesSection { header_done: false } => ScanAbs {
                        mode: ScanModeAbs::NodesSection { header_done: true },
                        ..st
                    },
                    ScanModeAbs::NodesSection { header_done: true } => {
                        match spec_parse_all(spec_split(line, 32)) {
                            Option::None => spec_fail(
                                st,
                                "mesh file holds a non-integer node entry"@,
                            ),
                            Option::Some(vals) => {
                                if vals.len() < 4 {
                                    spec_fail(st, "mesh file holds a malformed node block line"@)
                                } else if vals[3] == 0 {
                                    st
                                } else {
                                    ScanAbs {
                                        mode: ScanModeAbs::NodesTags {
                                            total: vals[3],
                                            tags: Seq::empty(),
                                        },
                                        ..st
                                    }
                                }
                            },
                        }
                    },
                    ScanModeAbs::ElementsSection { header_done: false } => ScanAbs {
                        mode: ScanModeAbs::ElementsSection { header_done: true },
                        ..st
                    },
                    ScanModeAbs::ElementsSection { header_done: true } => {
                        match spec_parse_all(spec_split(line, 32)) {
                            Option::None => spec_fail(
                                st,
                                "mesh file holds a non-integer element entry"@,
                            ),
                            Option::Some(vals) => {
                                if vals.len() < 4 {
                                    spec_fail(st, "mesh file holds a malformed element line"@)
                                } else if vals[3] == 0 {
                                    st
                                } else {
                                    ScanAbs {
                                        mode: ScanModeAbs::ElementRows {
                                            dim: vals[0],
                                            remaining: vals[3],
                                        },
                                        ..st
                                    }
                                }
                            },
                        }
                    },
                    _ => st,
                }
            }
        },
    }
}

/// The scanner state after all lines, from the start state.
pub open spec fn spec_scan(lines: Seq<Seq<u8>>) -> ScanAbs
    decreases lines.len(),
{
    if lines.len() == 0 {
        spec_scan_init()
    } else {
        spec_step(spec_scan(lines.drop_last()), lines.last())
    }
}

/// The structural invariant of a reachable scanner state: blocks in
/// progress still expect at least one line, and recorded tags are positive.
pub open spec fn state_wf(st: ScanAbs) -> bool {
    &&& st.nodes.len() == st.indexes.len()
    &&& match st.mode {
        ScanModeAbs::NodesTags { total, tags } => {
            &&& tags.len() < total
            &&& forall|j: int| 0 <= j < tags.len() ==> #[trigger] tags[j] >= 1
        },
        ScanModeAbs::NodesCoords { tags, at } => {
            &&& at < tags.len()
            &&& forall|j: int| 0 <= j < tags.len() ==> #[trigger] tags[j] >= 1
        },
        ScanModeAbs::ElementRows { dim: _, remaining } => remaining >= 1,
        _ => true,
    }
}

/// Parses every token as a decimal integer, or reports that one is not.
fn parse_all_tokens(ts: &Vec<Vec<u8>>) -> (r: Option<Vec<usize>>)
    ensures
        match r {
            Option::Some(v) => spec_parse_all(views_of(ts@)) == Option::Some(v@),
            Option::None => spec_parse_all(views_of(ts@)) is None,
        },
{
    let mut vals: Vec<usize> = Vec::new();
    let mut i: usize = 0;
    while i < ts.len()
        invariant
            0 <= i <= ts@.len(),
            spec_parse_all(views_of(ts@).take(i as int)) == Option::Some(vals@),
        decreases ts@.len() - i,
    {
        proof {
            assert(views_of(ts@).take(i + 1).drop_last() =~= views_of(ts@).take(i as int));
            assert(views_of(ts@).take(i + 1).last() == ts@[i as int]@);
        }
        match parse_usize_token(&ts[i]) {
            Option::Some(v) => vals.push(v),
            Option::None => {
                proof {
                    lemma_parse_all_prefix_none(views_of(ts@), i + 1);
                }
                return Option::None;
            },
        }
        i = i + 1;
    }
    proof {
        assert(views_of(ts@).take(ts@.len() as int) =~= views_of(ts@));
    }
    Option::Some(vals)
}

/// Once a prefix fails to parse, the whole list fails.
proof fn lemma_parse_all_prefix_none(ts: Seq<Seq<u8>>, i: int)
    requires
        0 <= i <= ts.len(),
        spec_parse_all(ts.take(i)) is None,
    ensures
        spec_parse_all(ts) is None,
    decreases ts.len() - i,
{
    if i < ts.len() {
        assert(ts.take(i + 1).drop_last() =~= ts.take(i));
        lemma_parse_all_prefix_none(ts, i + 1);
    } else {
        assert(ts.take(i) =~= ts);
    }
}

/// One step of the scanner on one line.
pub fn scan_step(st: ScanState, line: &Vec<u8>) -> (r: ScanState)
    requires
        state_wf(st@),
    ensures
        r@ == spec_step(st@, line@),
        state_wf(r@),
{
    let ScanState { mode, mut nodes, mut indexes, mut elements, error } = st;
    match mode {
        ScanMode::Failed => ScanState { mode: ScanMode::Failed, nodes, indexes, elements, error },
        ScanMode::NodesTags { total, mut tags } => match parse_usize_token(line) {
            Option::None => ScanState {
                mode: ScanMode::Failed,
                nodes,
                indexes,
                elements,
                error: Option::Some(String::from_str("mesh file holds a non-integer node tag")),
            },
            Option::Some(tag) => if tag == 0 {
                ScanState {
                    mode: ScanMode::Failed,
                    nodes,
                    indexes,
                    elements,
                    error: Option::Some(String::from_str("mesh file holds a node tag of zero")),
                }
            } else {
                tags.push(tag);
                if tags.len() == total {
                    ScanState {
                        mode: ScanMode::NodesCoords { tags, at: 0 },
                        nodes,
                        indexes,
                        elements,
                        error,
                    }
                } else {
                    ScanState {
                        mode: ScanMode::NodesTags { total, tags },
                        nodes,
                        indexes,
                        elements,
                        error,
                    }
                }
            },
        },
        ScanMode::NodesCoords { tags, at } => {
            let tokens = split_bytes(line, 32);
            proof {
                assert(views_of(tokens@) =~= spec_split(line@, 32));
            }
            if tokens.len() < 2 {
                ScanState {
                    mode: ScanMode::Failed,
                    nodes,
                    indexes,
                    elements,
                    error: Option::Some(String::from_str(
                        "mesh file holds a coordinate line with fewer than two entries",
                    )),
                }
            } else {
                let total_tags = tags.len();
                let idx = tags[at] - 1;
                let mut line_copy: Vec<u8> = Vec::new();
                let mut ci: usize = 0;
                while ci < line.len()
                    invariant
                        0 <= ci <= line@.len(),
                        line_copy@ =~= line@.take(ci as int),
                    decreases line@.len() - ci,
                {
                    let b = line[ci];
                    line_copy.push(b);
                    proof {
                        assert(line@.take(ci + 1) =~= line@.take(ci as int).push(line@[ci as int]));
                    }
                    ci = ci + 1;
                }
                proof {
                    assert(line_copy@ =~= line@);
                }
                let ghost nodes_before = nodes@;
                nodes.push(RawNode { line: line_copy });
                indexes.push(idx);
                proof {
                    assert(nodes@.map_values(|r: RawNode| r.line@)
                        =~= nodes_before.map_values(|r: RawNode| r.line@).push(line@));
                }
                if at + 1 == total_tags {
                    ScanState {
                        mode: ScanMode::NodesSection { header_done: true },
                        nodes,
                        indexes,
                        elements,
                        error,
                    }
                } else {
                    ScanState {
                        mode: ScanMode::NodesCoords { tags, at: at + 1 },
                        nodes,
                        indexes,
                        elements,
                        error,
                    }
                }
            }
        },
        ScanMode::ElementRows { dim, remaining } => {
            let trimmed = trim_bytes(line);
            let tokens = split_bytes(&trimmed, 32);
            proof {
                assert(views_of(tokens@) =~= spec_split(spec_trim(line@), 32));
            }
            match parse_all_tokens(&tokens) {
                Option::None => ScanState {
                    mode: ScanMode::Failed,
                    nodes,
                    indexes,
                    elements,
                    error: Option::Some(String::from_str(
                        "mesh file holds a non-integer element entry",
                    )),
                },
                Option::Some(vals) => {
                    if dim == 2 && vals.len() < 4 {
                        ScanState {
                            mode: ScanMode::Failed,
                            nodes,
                            indexes,
                            elements,
                            error: Option::Some(String::from_str(
                                "mesh file holds a malformed element line",
                            )),
                        }
                    } else if dim == 2 && (vals[1] == 0 || vals[2] == 0 || vals[3] == 0) {
                        ScanState {
                            mode: ScanMode::Failed,
                            nodes,
                            indexes,
                            elements,
                            error: Option::Some(String::from_str(
                                "mesh file holds an element node tag of zero",
                            )),
                        }
                    } else {
                        if dim == 2 {
                            elements.push(Element {
                                nodes: [vals[1] - 1, vals[2] - 1, vals[3] - 1],
                                stress: Option::None,
                            });
                        }
                        if remaining == 1 {
                            ScanState {
                                mode: ScanMode::ElementsSection { header_done: true },
                                nodes,
                                indexes,
                                elements,
                                error,
                            }
                        } else {
                            ScanState {
                                mode: ScanMode::ElementRows { dim, remaining: remaining - 1 },
                                nodes,
                                indexes,
                                elements,
                                error,
                            }
                        }
                    }
                },
            }
        },
        mode => {
            if line.len() == 0 {
                ScanState { mode, nodes, indexes, elements, error }
            } else {
                let end = marker_end();
                if starts_with_bytes(line, &end) {
                    ScanState { mode: ScanMode::Limbo, nodes, indexes, elements, error }
                } else {
                    match mode {
                        ScanMode::Limbo => {
                            let entities = marker_entities();
                            let node_m = marker_node();
                            let elements_m = marker_elements();
                            if starts_with_bytes(line, &entities) {
                                ScanState {
                                    mode: ScanMode::Entities,
                                    nodes,
                                    indexes,
                                    elements,
                                    error,
                                }
                            } else if starts_with_bytes(line, &node_m) {
                                ScanState {
                                    mode: ScanMode::NodesSection { header_done: false },
                                    nodes,
                                    indexes,
                                    elements,
                                    error,
                                }
                            } else if starts_with_bytes(line, &elements_m) {
                                ScanState {
                                    mode: ScanMode::ElementsSection { header_done: false },
                                    nodes,
                                    indexes,
                                    elements,
                                    error,
                                }
                            } else {
                                ScanState { mode: ScanMode::Limbo, nodes, indexes, elements, error }
                            }
                        },
                        ScanMode::Entities => ScanState {
                            mode: ScanMode::Entities,
                            nodes,
                            indexes,
                            elements,
                            error,
                        },
                        ScanMode::NodesSection { header_done: false } => ScanState {
                            mode: ScanMode::NodesSection { header_done: true },
                            nodes,
                            indexes,
                            elements,
                            error,
                        },
                        ScanMode::NodesSection { header_done: true } => {
                            let tokens = split_bytes(line, 32);
                            proof {
                                assert(views_of(tokens@) =~= spec_split(line@, 32));
                            }
                            match parse_all_tokens(&tokens) {
                                Option::None => ScanState {
                                    mode: ScanMode::Failed,
                                    nodes,
                                    indexes,
                                    elements,
                                    error: Option::Some(String::from_str(
                                        "mesh file holds a non-integer node entry",
                                    )),
                                },
                                Option::Some(vals) => {
                                    if vals.len() < 4 {
                                        ScanState {
                                            mode: ScanMode::Failed,
                                            nodes,
                                            indexes,
                                            elements,
                                            error: Option::Some(String::from_str(
                                                "mesh file holds a malformed node block line",
                                            )),
                                        }
                                    } else if vals[3] == 0 {
                                        ScanState {
                                            mode: ScanMode::NodesSection { header_done: true },
                                            nodes,
                                            indexes,
                                            elements,
                                            error,
                                        }
                                    } else {
                                        ScanState {
                                            mode: ScanMode::NodesTags {
                                                total: vals[3],
                                                tags: Vec::new(),
                                            },
                                            nodes,
                                            indexes,
                                            elements,
                                            error,
                                        }
                                    }
                                },
                            }
                        },
                        ScanMode::ElementsSection { header_done: false } => ScanState {
                            mode: ScanMode::ElementsSection { header_done: true },
                            nodes,
                            indexes,
                            elements,
                            error,
                        },
                        ScanMode::ElementsSection { header_done: true } => {
                            let tokens = split_bytes(line, 32);
                            proof {
                                assert(views_of(tokens@) =~= spec_split(line@, 32));
                            }
                            match parse_all_tokens(&tokens) {
                                Option::None => ScanState {
                                    mode: ScanMode::Failed,
                                    nodes,
                                    indexes,
                                    elements,
                                    error: Option::Some(String::from_str(
                                        "mesh file holds a non-integer element entry",
                                    )),
                                },
                                Option::Some(vals) => {
                                    if vals.len() < 4 {
                                        ScanState {
                                            mode: ScanMode::Failed,
                                            nodes,
                                            indexes,
                                            elements,
                                            error: Option::Some(String::from_str(
                                                "mesh file holds a malformed element line",
                                            )),
                                        }
                                    } else if vals[3] == 0 {
                                        ScanState {
                                            mode: ScanMode::ElementsSection { header_done: true },
                                            nodes,
                                            indexes,
                                            elements,
                                            error,
                                        }
                                    } else {
                                        ScanState {
                                            mode: ScanMode::ElementRows {
                                                dim: vals[0],
                                                remaining: vals[3],
                                            },
                                            nodes,
                                            indexes,
                                            elements,
                                            error,
                                        }
                                    }
                                },
                            }
                        },
                        _ => ScanState { mode: ScanMode::Failed, nodes, indexes, elements, error },
                    }
                }
            }
        },
    }
}

} // verus!

verus! {

/// Runs the scanner over every line in order.
pub fn scan_lines(lines: &Vec<Vec<u8>>) -> (st: ScanState)
    ensures
        st@ == spec_scan(views_of(lines@)),
        state_wf(st@),
{
    let mut st = ScanState {
        mode: ScanMode::Limbo,
        nodes: Vec::new(),
        indexes: Vec::new(),
        elements: Vec::new(),
        error: Option::None,
    };
    proof {
        assert(st@.nodes =~= spec_scan_init().nodes);
        assert(st@ == spec_scan_init());
        assert(views_of(lines@).take(0) =~= Seq::<Seq<u8>>::empty());
    }
    let mut i: usize = 0;
    while i < lines.len()
        invariant
            0 <= i <= lines@.len(),
            st@ == spec_scan(views_of(lines@).take(i as int)),
            state_wf(st@),
        decreases lines@.len() - i,
    {
        proof {
            assert(views_of(lines@).take(i + 1).drop_last() =~= views_of(lines@).take(i as int));
            assert(views_of(lines@).take(i + 1).last() == lines@[i as int]@);
        }
        st = scan_step(st, &lines[i]);
        i = i + 1;
    }
    proof {
        assert(views_of(lines@).take(lines@.len() as int) =~= views_of(lines@));
    }
    st
}

/// How many slots are filled.
pub open spec fn spec_count_some(s: Seq<Option<RawNode>>) -> nat
    decreases s.len(),
{
    if s.len() == 0 {
        0
    } else if s.last() is Some {
        spec_count_some(s.drop_last()) + 1
    } else {
        spec_count_some(s.drop_last())
    }
}

/// Filling an empty slot raises the count by one.
proof fn lemma_count_update(s: Seq<Option<RawNode>>, k: int, node: RawNode)
    requires
        0 <= k < s.len(),
        s[k] is None,
    ensures
        spec_count_some(s.update(k, Option::Some(node))) == spec_count_some(s) + 1,
    decreases s.len(),
{
    let s2 = s.update(k, Option::Some(node));
    if k == s.len() - 1 {
        assert(s2.drop_last() =~= s.drop_last());
    } else {
        assert(s2.drop_last() =~= s.drop_last().update(k, Option::Some(node)));
        assert(s2.last() == s.last());
        lemma_count_update(s.drop_last(), k, node);
    }
}

/// A full count means every slot is filled.
proof fn lemma_count_full(s: Seq<Option<RawNode>>)
    requires
        spec_count_some(s) == s.len(),
    ensures
        forall|i: int| 0 <= i < s.len() ==> #[trigger] s[i] is Some,
    decreases s.len(),
{
    if s.len() > 0 {
        assert(spec_count_some(s.drop_last()) <= s.drop_last().len()) by {
            lemma_count_bound(s.drop_last());
        }
        lemma_count_full(s.drop_last());
        assert(forall|i: int| 0 <= i < s.len() - 1 ==> s[i] == s.drop_last()[i]);
    }
}

/// No more slots are filled than exist.
proof fn lemma_count_bound(s: Seq<Option<RawNode>>)
    ensures
        spec_count_some(s) <= s.len(),
    decreases s.len(),
{
    if s.len() > 0 {
        lemma_count_bound(s.drop_last());
    }
}

/// Remapped node indices are sound: each in range and no two equal.
pub open spec fn indexes_valid(indexes: Seq<usize>, n: nat) -> bool {
    &&& forall|i: int| 0 <= i < indexes.len() ==> #[trigger] indexes[i] < n
    &&& forall|i: int, j: int| 0 <= i < j < indexes.len()
        ==> #[trigger] indexes[i] != #[trigger] indexes[j]
}

/// Orders the scanned nodes by their remapped indices: node `i` of the file
/// moves to slot `indexes[i]`.  Rejected if the indices do not form one
/// contiguous zero-based range.
#[verifier::loop_isolation(false)]
pub fn order_nodes(nodes: Vec<RawNode>, indexes: &Vec<usize>) -> (r: Result<
    Vec<RawNode>,
    MagnetiteError,
>)
    requires
        indexes@.len() == nodes@.len(),
    ensures
        match r {
            Ok(out) => {
                &&& indexes_valid(indexes@, nodes@.len())
                &&& out@.len() == nodes@.len()
                &&& forall|i: int| 0 <= i < indexes@.len()
                    ==> out@[#[trigger] indexes@[i] as int] == nodes@[i]
            },
            Err(e) => {
                &&& !indexes_valid(indexes@, nodes@.len())
                &&& e is Mesher
                &&& e.spec_message() == "mesh file node tags do not form one contiguous range"@
            },
        },
{
    let ghost orig = nodes@;
    let mut pending = nodes;
    let n = pending.len();
    let mut buf: Vec<Option<RawNode>> = Vec::new();
    let mut k: usize = 0;
    while k < n
        invariant
            0 <= k <= n,
            buf@.len() == k,
            forall|m: int| 0 <= m < k ==> #[trigger] buf@[m] is None,
        decreases n - k,
    {
        buf.push(Option::None);
        k = k + 1;
    }
    proof {
        lemma_count_none_zero(buf@);
    }
    let mut i: usize = n;
    while i > 0
        invariant
            0 <= i <= n,
            n == orig.len(),
            indexes@.len() == n,
            pending@ == orig.take(i as int),
            buf@.len() == n,
            spec_count_some(buf@) == n - i,
            forall|j: int| i <= j < n ==> #[trigger] indexes@[j] < n,
            forall|j: int| i <= j < n
                ==> buf@[#[trigger] indexes@[j] as int] == Option::Some(orig[j]),
            forall|m: int| 0 <= m < n && #[trigger] buf@[m] is Some
                ==> exists|j: int| i <= j < n && #[trigger] indexes@[j] == m,
            forall|j1: int, j2: int| i <= j1 < j2 < n
                ==> #[trigger] indexes@[j1] != #[trigger] indexes@[j2],
        decreases i,
    {
        let node = match pending.pop() {
            Option::Some(node) => node,
            Option::None => {
                proof {
                    assert(false);
                }
                return Err(MagnetiteError::Mesher(String::from_str(
                    "mesh file node tags do not form one contiguous range",
                )));
            },
        };
        let idx = indexes[i - 1];
        if idx >= n {
            proof {
                assert(!indexes_valid(indexes@, orig.len()));
            }
            return Err(MagnetiteError::Mesher(String::from_str(
                "mesh file node tags do not form one contiguous range",
            )));
        }
        if buf[idx].is_some() {
            proof {
                let j = choose|j: int| i <= j < n && #[trigger] indexes@[j] == idx;
                assert(indexes@[i - 1] == indexes@[j] && i - 1 < j);
                assert(!indexes_valid(indexes@, orig.len()));
            }
            return Err(MagnetiteError::Mesher(String::from_str(
                "mesh file node tags do not form one contiguous range",
            )));
        }
        proof {
            lemma_count_update(buf@, idx as int, node);
            assert(orig.take(i as int).drop_last() =~= orig.take(i - 1));
            assert(orig.take(i as int).last() == orig[i - 1]);
            assert forall|j: int| i <= j < n
                implies #[trigger] indexes@[j] != indexes@[i - 1] by {
                assert(buf@[indexes@[j] as int] is Some);
            }
        }
        buf.set(idx, Option::Some(node));
        i = i - 1;
    }
    proof {
        lemma_count_full(buf@);
    }
    let ghost buf_full = buf@;
    let mut out: Vec<RawNode> = Vec::new();
    let mut m: usize = 0;
    while m < n
        invariant
            0 <= m <= n,
            n == orig.len(),
            buf_full.len() == n,
            forall|x: int| 0 <= x < n ==> #[trigger] buf_full[x] is Some,
            buf@ =~= buf_full.skip(m as int),
            out@.len() == m,
            forall|x: int| 0 <= x < m ==> Option::Some(#[trigger] out@[x]) == buf_full[x],
        decreases n - m,
    {
        let slot = buf.remove(0);
        proof {
            assert(buf_full.skip(m as int)[0] == buf_full[m as int]);
            assert(buf_full.skip(m as int).subrange(1, buf_full.skip(m as int).len() as int)
                =~= buf_full.skip(m + 1));
        }
        match slot {
            Option::Some(node) => out.push(node),
            Option::None => {
                proof {
                    assert(false);
                }
                return Err(MagnetiteError::Mesher(String::from_str(
                    "mesh file node tags do not form one contiguous range",
                )));
            },
        }
        m = m + 1;
    }
    proof {
        assert forall|i2: int| 0 <= i2 < indexes@.len()
            implies out@[#[trigger] indexes@[i2] as int] == orig[i2] by {
            assert(buf_full[indexes@[i2] as int] == Option::Some(orig[i2]));
        }
    }
    Ok(out)
}

/// An all-empty buffer has a zero count.
proof fn lemma_count_none_zero(s: Seq<Option<RawNode>>)
    requires
        forall|m: int| 0 <= m < s.len() ==> #[trigger] s[m] is None,
    ensures
        spec_count_some(s) == 0,
    decreases s.len(),
{
    if s.len() > 0 {
        assert(forall|m: int| 0 <= m < s.len() - 1 ==> s.drop_last()[m] == s[m]);
        lemma_count_none_zero(s.drop_last());
    }
}

/// The scanner state the whole file reaches: its lines are the file split
/// at every line feed.
pub open spec fn scan_of(contents: Seq<u8>) -> ScanAbs {
    spec_scan(spec_split(contents, 10))
}

/// A scanner mode in the middle of a tag, coordinate or element block.
pub open spec fn spec_in_block(m: ScanModeAbs) -> bool {
    ||| m is NodesTags
    ||| m is NodesCoords
    ||| m is ElementRows
}

/// Reads a mesh file: scans its sections, then orders the node records by
/// their remapped (0-based) tags.  On success the node list is in index
/// order, with each node's raw coordinate line, and the element list holds
/// exactly the two-dimensional elements with 0-based node indices.
pub fn parse_mesh(contents: &Vec<u8>) -> (r: Result<(Vec<RawNode>, Vec<Element>), MagnetiteError>)
    ensures
        match r {
            Ok(p) => {
                let st = scan_of(contents@);
                &&& st.error is None
                &&& !spec_in_block(st.mode)
                &&& st.indexes.len() == st.nodes.len()
                &&& indexes_valid(st.indexes, st.nodes.len())
                &&& p.1@ == st.elements
                &&& p.0@.len() == st.nodes.len()
                &&& forall|i: int| 0 <= i < st.indexes.len()
                    ==> p.0@[#[trigger] st.indexes[i] as int].line@ == st.nodes[i]
            },
            Err(e) => {
                let st = scan_of(contents@);
                &&& e is Mesher
                &&& {
                    ||| (st.error is Some && e.spec_message() == st.error.unwrap())
                    ||| (st.error is None && spec_in_block(st.mode)
                        && e.spec_message() == "mesh file ends inside a section"@)
                    ||| (st.error is None && !spec_in_block(st.mode)
                        && st.indexes.len() == st.nodes.len()
                        && !indexes_valid(st.indexes, st.nodes.len())
                        && e.spec_message()
                            == "mesh file node tags do not form one contiguous range"@)
                }
            },
        },
{
    let lines = split_bytes(contents, 10);
    proof {
        assert(views_of(lines@) =~= spec_split(contents@, 10));
    }
    let st = scan_lines(&lines);
    let ScanState { mode, nodes, indexes, elements, error } = st;
    match error {
        Option::Some(msg) => {
            return Err(MagnetiteError::Mesher(msg));
        },
        Option::None => (),
    }
    match &mode {
        ScanMode::NodesTags { .. } | ScanMode::NodesCoords { .. } | ScanMode::ElementRows { .. } => {
            return Err(MagnetiteError::Mesher(String::from_str(
                "mesh file ends inside a section",
            )));
        },
        _ => (),
    }
    proof {
        assert(nodes@.map_values(|r: RawNode| r.line@).len() == nodes@.len());
    }
    let ordered = match order_nodes(nodes, &indexes) {
        Ok(out) => out,
        Err(e) => {
            return Err(e);
        },
    };
    Ok((ordered, elements))
}

} // verus!

verus! {

/// Builds the node records for freshly meshed vertices: no displacement
/// prescribed, zero force prescribed on both axes.
pub fn make_nodes(vertices: &Vec<crate::datatypes::Vertex>) -> (r: Vec<crate::datatypes::Node>)
    ensures
        r@.len() == vertices@.len(),
        forall|i: int| 0 <= i < vertices@.len() ==> {
            &&& (#[trigger] r@[i]).vertex == vertices@[i]
            &&& r@[i].ux is None
            &&& r@[i].uy is None
            &&& r@[i].fx == Some(fp::POS_ZERO)
            &&& r@[i].fy == Some(fp::POS_ZERO)
            &&& crate::datatypes::node_constrained(r@[i])
        },
{
    let mut r: Vec<crate::datatypes::Node> = Vec::new();
    let mut i: usize = 0;
    while i < vertices.len()
        invariant
            0 <= i <= vertices@.len(),
            r@.len() == i,
            forall|k: int| 0 <= k < i ==> {
                &&& (#[trigger] r@[k]).vertex == vertices@[k]
                &&& r@[k].ux is None
                &&& r@[k].uy is None
                &&& r@[k].fx == Some(fp::POS_ZERO)
                &&& r@[k].fy == Some(fp::POS_ZERO)
            },
        decreases vertices@.len() - i,
    {
        r.push(crate::datatypes::Node {
            vertex: vertices[i],
            ux: Option::None,
            uy: Option::None,
            fx: Option::Some(fp::POS_ZERO),
            fy: Option::Some(fp::POS_ZERO),
        });
        i = i + 1;
    }
    r
}

} // verus!
