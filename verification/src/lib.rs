//! Turn a markdown syntax tree (mdast) into markdown text, and convert
//! between that tree, the blocks of a block editor, and the XML tree of a
//! collaborative block document.
//!
//! The serializer tracks the constructs it is inside of, escapes the
//! characters that would otherwise mean something there, and joins block
//! content with the blank lines that its join rules decide. The `blocknote`
//! module holds the blocks, their props and schema, and the conversions.

use vstd::prelude::*;

pub mod blocknote;
pub mod check;
pub mod configure;
pub mod container_flow;
pub mod container_phrasing;
pub mod format;
pub mod gfm;
pub mod handle;
pub mod indent;
pub mod json;
pub mod join;
pub mod mdast;
pub mod mdast_json;
pub mod output;
pub mod pattern;
pub mod regex_ext;
pub mod safe;
pub mod state;
pub mod text;
pub mod track;
pub mod types;
pub mod unsafe_patterns;

use crate::check::{
    bullet_other_ok, valid_attention, valid_bullet_ordered, valid_fence, valid_list_item_indent,
    valid_quote,
};
use crate::gfm::{gfm, gfm_peek_handlers, gfm_strikethrough_entries, gfm_table_entries, gfm_task_entries};
use crate::handle::thematic_break::thematic_break_ok;
use crate::handle::{default_handler_entries, default_handlers, default_peek_handlers};
use crate::join::default_join;
use crate::container_flow::between_spec;
use crate::text::repeat_spec;
use crate::mdast::{lemma_children_decrease, node_children, Node};
use crate::output::{cfg_of, ctx_of, ser, Cfg, Ctx};
use crate::unsafe_patterns::default_patterns_spec;
use crate::gfm::gfm_patterns_spec;
use crate::handle::default_peek_entries;
use crate::state::{children_ok, handler_ok, tree_ok, State};
use crate::text::{owned, push_char};
use crate::types::{copy_options, lookup_in, ConstructName, HandlerFn, Info, JoinFn, Options, PeekFn};
use crate::unsafe_patterns::default_unsafe_patterns;

verus! {

/// The handler registrations `to_markdown` makes: the default ones, then,
/// with GFM, those of the table, strikethrough and task list extensions.
pub open spec fn markdown_handler_entries(o: Options) -> Seq<(Seq<char>, HandlerFn)> {
    if o.gfm {
        default_handler_entries() + gfm_table_entries() + gfm_strikethrough_entries() + gfm_task_entries()
    } else {
        default_handler_entries()
    }
}

/// The handlers `to_markdown` uses, as a function of the type name.
pub open spec fn markdown_handlers(o: Options) -> spec_fn(Seq<char>) -> Option<HandlerFn> {
    |k: Seq<char>| lookup_in(markdown_handler_entries(o), k)
}

/// Every option that some handler checks is valid.
pub open spec fn options_valid(o: Options) -> bool {
    &&& bullet_other_ok(o)
    &&& valid_bullet_ordered(o.bullet_ordered)
    &&& valid_attention(o.emphasis)
    &&& valid_attention(o.strong)
    &&& valid_fence(o.fence)
    &&& valid_quote(o.quote)
    &&& thematic_break_ok(o)
    &&& valid_list_item_indent(o.list_item_indent@)
}

/// With valid options, every tree can be serialized, whatever the handlers.
pub proof fn lemma_valid_options_tree_ok(
    hs: spec_fn(Seq<char>) -> Option<HandlerFn>,
    o: Options,
    n: Node,
    in_list: bool,
)
    requires
        options_valid(o),
    ensures
        tree_ok(hs, o, n, in_list),
    decreases n, (node_children(n).len() + 1) as int,
{
    let h = hs(crate::state::node_type_spec(n));
    assert(handler_ok(o, h, n, in_list));
    lemma_valid_options_children_ok(
        hs,
        o,
        n,
        crate::state::child_flag(h, n, in_list),
        node_children(n).len() as int,
    );
}

/// With valid options, the children of every node can be serialized.
pub proof fn lemma_valid_options_children_ok(
    hs: spec_fn(Seq<char>) -> Option<HandlerFn>,
    o: Options,
    n: Node,
    in_list: bool,
    k: int,
)
    requires
        options_valid(o),
    ensures
        children_ok(hs, o, n, in_list, k),
    decreases n, k,
{
    if 0 < k <= node_children(n).len() {
        lemma_children_decrease(n);
        lemma_valid_options_children_ok(hs, o, n, in_list, k - 1);
        lemma_valid_options_tree_ok(hs, o, node_children(n)[k - 1], in_list);
    }
}

/// The default options are valid.
pub proof fn lemma_default_options_valid(o: Options)
    requires
        crate::types::default_options_spec(o),
    ensures
        options_valid(o),
{
}

/// What `to_markdown` registers for the options: the default handlers,
/// peek functions, unsafe patterns and join rules, then, with GFM, those of the
/// table, strikethrough and task list extensions, and, with tight
/// definitions, the join rule for definitions.
pub open spec fn markdown_cfg(cfg: Cfg, o: Options) -> bool {
    &&& cfg.handlers == markdown_handler_entries(o)
    &&& cfg.peek_handlers == if o.gfm {
        default_peek_entries() + seq![("delete"@, PeekFn::Delete)]
    } else {
        default_peek_entries()
    }
    &&& default_patterns_spec(cfg.unsafe_patterns.take(40))
    &&& if o.gfm {
        cfg.unsafe_patterns.len() == 48 && gfm_patterns_spec(cfg.unsafe_patterns.skip(40))
    } else {
        cfg.unsafe_patterns.len() == 40
    }
    &&& cfg.join == if o.tight_definitions {
        seq![JoinFn::Defaults, JoinFn::Definition]
    } else {
        seq![JoinFn::Defaults]
    }
    &&& cfg.options == o
}

/// With tight definitions, two adjacent definitions are joined without a
/// blank line: only a line ending goes between them.
pub proof fn lemma_tight_definitions(cfg: Cfg, o: Options, left: Node, right: Node, parent: Node)
    requires
        markdown_cfg(cfg, o),
        o.tight_definitions,
        left is Definition,
        right is Definition,
    ensures
        between_spec(cfg.join, left, right, parent, o) == "\n"@,
{
    reveal_strlit("\n");
    assert(repeat_spec('\n', 1) =~= "\n"@);
}

/// Where serialization starts: inside no construct, with no list marker.
pub open spec fn start_ctx() -> Ctx {
    Ctx { stack: Seq::empty(), index: Seq::empty(), current: None, last_used: None, attention: None }
}

/// A text that is not empty ends with a line ending.
pub open spec fn with_final_eol(v: Seq<char>) -> Seq<char> {
    if v.len() > 0 && v.last() != '\n' && v.last() != '\r' {
        v.push('\n')
    } else {
        v
    }
}

/// `text` is the markdown of `tree` with options `o`: the tree as its
/// handler writes it, with what `to_markdown` registers for the options,
/// between line endings, followed by a line ending when it is not empty and
/// does not end with one.
pub open spec fn markdown_of(tree: Node, o: Options, text: Seq<char>) -> bool {
    exists|cfg: Cfg|
        #[trigger] markdown_cfg(cfg, o) && text == with_final_eol(ser(cfg, start_ctx(), tree, None, "\n"@, "\n"@).0)
}

/// Turn an mdast syntax tree into markdown: the tree as its handler writes
/// it, with what `to_markdown` registers for the options, between line
/// endings, followed by a line ending when it is not empty and does not end
/// with one.
pub fn to_markdown(tree: &Node, options: &Options) -> (r: String)
    requires
        tree_ok(markdown_handlers(*options), *options, *tree, false),
    ensures
        markdown_of(*tree, *options, r@),
        r@.len() == 0 || r@.last() == '\n' || r@.last() == '\r',
{
    let mut state = State::new();
    state.handlers = default_handlers();
    state.peek_handlers = default_peek_handlers();
    state.join = default_join();
    state.unsafe_patterns = default_unsafe_patterns();
    let ghost defaults = state.unsafe_patterns@;
    state.options = copy_options(options);
    if options.gfm {
        let mut exts = gfm();
        let task = exts.pop().unwrap();
        let strike = exts.pop().unwrap();
        let table = exts.pop().unwrap();
        let mut table = table;
        let mut strike = strike;
        let mut task = task;
        let ghost added = table.unsafe_patterns@ + strike.unsafe_patterns@ + task.unsafe_patterns@;
        proof {
            assert(added.take(6) =~= table.unsafe_patterns@);
            assert(added[6] == strike.unsafe_patterns@[0]);
            assert(added[7] == task.unsafe_patterns@[0]);
        }
        state.handlers.extend(table.handlers);
        state.unsafe_patterns.append(&mut table.unsafe_patterns);
        state.join.append(&mut table.join);
        state.handlers.extend(strike.handlers);
        state.unsafe_patterns.append(&mut strike.unsafe_patterns);
        state.join.append(&mut strike.join);
        state.handlers.extend(task.handlers);
        state.unsafe_patterns.append(&mut task.unsafe_patterns);
        state.join.append(&mut task.join);
        state.peek_handlers.extend(gfm_peek_handlers());
        assert(state.unsafe_patterns@ =~= defaults + added);
        assert(state.unsafe_patterns@.skip(40) =~= added);
    }
    if state.options.tight_definitions {
        state.join.push(JoinFn::Definition);
    }
    proof {
        assert(state.handlers@ =~= markdown_handler_entries(*options));
        assert(state.handlers.lookup_fn() =~= markdown_handlers(*options));
    }
    proof {
        assert(state.stack@ =~= Seq::<ConstructName>::empty());
        assert(state.index_stack@ =~= Seq::<usize>::empty());
        assert(ctx_of(state) == start_ctx());
        let cfg = cfg_of(state);
        assert(cfg.unsafe_patterns.take(40) =~= defaults);
        assert(cfg.handlers == markdown_handler_entries(*options));
        assert(cfg.peek_handlers =~= if options.gfm {
            default_peek_entries() + seq![("delete"@, PeekFn::Delete)]
        } else {
            default_peek_entries()
        });
        assert(cfg.join =~= if options.tight_definitions {
            seq![JoinFn::Defaults, JoinFn::Definition]
        } else {
            seq![JoinFn::Defaults]
        });
        assert(cfg.options == *options);
        assert(markdown_cfg(cfg, *options));
    }
    let ghost cfg = cfg_of(state);
    let info = Info { before: owned("\n"), after: owned("\n"), line: 1, column: 1, line_shift: 0 };
    let mut result = state.handle(tree, None, &info);
    let ghost written = result@;
    let n = result.as_str().unicode_len();
    if n > 0 {
        let last = result.as_str().get_char(n - 1);
        if last != '\n' && last != '\r' {
            push_char(&mut result, '\n');
        }
    }
    proof {
        assert(result@ == with_final_eol(written));
        assert(markdown_cfg(cfg, *options));
    }
    result
}

}
