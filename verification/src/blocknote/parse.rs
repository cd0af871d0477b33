//! Parsing GFM markdown into blocks.
//!
//! The `markdown` crate parses the text; its syntax tree comes back as JSON
//! text, which is read into the library's own tree and converted to blocks.

use vstd::prelude::*;
use crate::blocknote::blocks::{blocks_ids, Block};
use crate::blocknote::from_mdast::{mdast_to_blocks, root_blocks_ok};
use crate::blocknote::markdown::{IdGenerator, IdRecord};
use crate::json::{json_text, parse_json};
use crate::mdast::{self as md, Node};
use crate::mdast_json::{decode_node, json_node_ok};

verus! {

/// The JSON text of the GFM syntax tree of markdown text: what
/// `markdown::to_mdast` gives with `markdown::ParseOptions::gfm()`, written
/// out by `serde_json::to_string`; `None` where either call fails.
pub uninterp spec fn gfm_tree_json(text: Seq<char>) -> Option<Seq<char>>;

/// Parse markdown with the GFM options of the `markdown` crate
/// (`markdown::to_mdast`) and write the tree out as JSON
/// (`serde_json::to_string`). Trusted: the result is `gfm_tree_json` of the
/// text.
#[verifier::external_body]
fn parse_gfm_tree_json(text: &str) -> (r: Option<String>)
    ensures
        match r {
            Some(j) => gfm_tree_json(text@) == Some(j@),
            None => gfm_tree_json(text@) is None,
        },
{
    match markdown::to_mdast(text, &markdown::ParseOptions::gfm()) {
        Ok(tree) => serde_json::to_string(&tree).ok(),
        Err(_) => None,
    }
}

/// The characters of a block id: the URL-safe alphabet.
pub open spec fn is_id_char(c: char) -> bool {
    ('a' <= c && c <= 'z') || ('A' <= c && c <= 'Z') || ('0' <= c && c <= '9') || c == '_' || c == '-'
}

/// An id of 21 characters of the URL-safe alphabet.
pub open spec fn random_id(s: Seq<char>) -> bool {
    s.len() == 21 && forall|k: int| 0 <= k < 21 ==> is_id_char(#[trigger] s[k])
}

/// A random block id: `nanoid::format` with the default random source, the
/// URL-safe alphabet (`nanoid::alphabet::SAFE`) and 21 characters, as
/// `nanoid!()` writes it. Trusted: 21 characters of that alphabet; which ones
/// is left to chance.
#[verifier::external_body]
pub fn default_id_generator() -> (r: String)
    ensures
        random_id(r@),
{
    nanoid::format(nanoid::rngs::default, &nanoid::alphabet::SAFE, 21)
}

/// Block ids from `default_id_generator`.
pub struct RandomIds;

impl IdGenerator for RandomIds {
    fn next_id(&mut self) -> (r: String)
        ensures
            random_id(r@),
    {
        default_id_generator()
    }
}

/// The blocks a syntax tree gives: those of the children of a root, and
/// none for any other node.
pub open spec fn tree_blocks_ok(n: Node, bs: Seq<Block>) -> bool {
    match n {
        Node::Root(rt) => root_blocks_ok(rt.children@, bs),
        _ => bs.len() == 0,
    }
}

/// The blocks the syntax tree in a JSON text gives: those of the tree that
/// the text is the JSON form of, and none where it is the form of no tree.
pub open spec fn json_blocks_ok(json: Seq<char>, bs: Seq<Block>) -> bool {
    match json_text(json) {
        Some(v) => if exists|n: Node| #[trigger] json_node_ok(v, n) {
            exists|n: Node| #[trigger] json_node_ok(v, n) && tree_blocks_ok(n, bs)
        } else {
            bs.len() == 0
        },
        None => bs.len() == 0,
    }
}

/// Convert the syntax tree in a JSON text to blocks, with ids from `id_gen`:
/// one id per block, taken children first, in document order.
pub fn tree_json_to_blocks<G: IdGenerator>(json: &str, id_gen: &mut IdRecord<G>) -> (r: Vec<Block>)
    ensures
        json_blocks_ok(json@, r@),
        final(id_gen).issued() == old(id_gen).issued() + blocks_ids(r@),
{
    let decoded = match parse_json(json) {
        Some(v) => decode_node(&v),
        None => None,
    };
    match decoded {
        Some(tree) => {
            let r = mdast_to_blocks(&tree, id_gen);
            proof {
                assert(json_node_ok(json_text(json@)->0, tree));
                assert(tree_blocks_ok(tree, r@));
            }
            r
        },
        None => {
            let empty = Node::Root(md::Root { children: Vec::new() });
            let r = mdast_to_blocks(&empty, id_gen);
            proof {
                assert(root_blocks_ok(Seq::<Node>::empty(), r@));
            }
            r
        },
    }
}

/// Parse GFM markdown into blocks, with ids from `id_gen`: one id per block,
/// taken children first, in document order. Text that does not parse gives
/// no blocks.
pub fn markdown_to_blocks_with<G: IdGenerator>(md: &str, id_gen: &mut IdRecord<G>) -> (r: Vec<Block>)
    ensures
        match gfm_tree_json(md@) {
            Some(j) => json_blocks_ok(j, r@),
            None => r@.len() == 0,
        },
        final(id_gen).issued() == old(id_gen).issued() + blocks_ids(r@),
{
    match parse_gfm_tree_json(md) {
        Some(j) => tree_json_to_blocks(j.as_str(), id_gen),
        None => {
            let r = Vec::new();
            proof {
                assert(id_gen.issued() + blocks_ids(r@) =~= id_gen.issued());
            }
            r
        },
    }
}

/// Blocks whose ids a generator handed out after `before`, from a generator
/// that never hands out an id twice, have ids that are pairwise distinct.
pub proof fn lemma_distinct_ids(before: Seq<Seq<char>>, bs: Seq<Block>)
    requires
        (before + blocks_ids(bs)).no_duplicates(),
    ensures
        blocks_ids(bs).no_duplicates(),
{
    let all = before + blocks_ids(bs);
    let ids = blocks_ids(bs);
    assert forall|i: int, j: int| 0 <= i < ids.len() && 0 <= j < ids.len() && i != j implies ids[i] != ids[j] by {
        assert(all[before.len() + i] == ids[i]);
        assert(all[before.len() + j] == ids[j]);
    }
}

/// Parse GFM markdown into blocks with random ids.
pub fn markdown_to_blocks(md: &str) -> (r: Vec<Block>)
    ensures
        match gfm_tree_json(md@) {
            Some(j) => json_blocks_ok(j, r@),
            None => r@.len() == 0,
        },
{
    let mut ids = IdRecord::new(RandomIds);
    markdown_to_blocks_with(md, &mut ids)
}

}
