//! Code blocks, fenced or indented.

use vstd::prelude::*;
use crate::check::{check_fence, valid_fence};
use crate::format::{code_indented_spec, format_code_as_indented, longest_run, longest_streak};
use crate::indent::{indent_lines_spec, IndentMap, LineMap};
use crate::mdast::{Code, Node};
use crate::safe::safe_spec;
use crate::output::{cfg_of, ctx_of, opt_node, ser_with, wrote};
use crate::state::{preserved, State};
use crate::text::{owned, push_str, repeat_char, repeat_spec};
use crate::types::{HandlerFn, ConstructName, Info, Options, SafeConfig, UnsafePattern};

verus! {

/// The number of fence markers: one more than the longest run of the marker in
/// the value, and at least three.
pub open spec fn fence_count(value: Seq<char>, marker: char) -> nat {
    let longest = longest_run(value, marker, value.len() as int);
    (if longest > 2 { longest } else { 2 }) + 1
}

/// A fenced code block: the fence, the language and meta made safe, a line
/// ending, the value and a line ending when there is a value, and the fence.
pub open spec fn fenced_code_spec(
    c: Code,
    o: Options,
    ps: Seq<UnsafePattern>,
    st: Seq<ConstructName>,
) -> Seq<char> {
    let m = o.fence;
    let fence = repeat_spec(m, fence_count(c.value@, m));
    let st2 = st.push(ConstructName::CodeFenced);
    let lang_c = if m == '`' {
        ConstructName::CodeFencedLangGraveAccent
    } else {
        ConstructName::CodeFencedLangTilde
    };
    let meta_c = if m == '`' {
        ConstructName::CodeFencedMetaGraveAccent
    } else {
        ConstructName::CodeFencedMetaTilde
    };
    let with_lang = match c.lang {
        Some(l) => fence + safe_spec(ps, st2.push(lang_c), fence, l@, " "@, seq!['`']),
        None => fence,
    };
    let with_meta = match (c.lang, c.meta) {
        (Some(_), Some(mt)) => with_lang + " "@ + safe_spec(
            ps,
            st2.push(meta_c),
            with_lang + " "@,
            mt@,
            "\n"@,
            seq!['`'],
        ),
        _ => with_lang,
    };
    with_meta + "\n"@ + (if c.value@.len() > 0 {
        c.value@ + "\n"@
    } else {
        Seq::empty()
    }) + fence
}

/// A code block: indented (each non-blank line prefixed by four spaces) when
/// `code_indented_spec` says so, else fenced.
pub open spec fn code_spec(c: Code, o: Options, ps: Seq<UnsafePattern>, st: Seq<ConstructName>) -> Seq<char> {
    if code_indented_spec(c, o) {
        indent_lines_spec(c.value@, LineMap::Prefix("    "@))
    } else {
        fenced_code_spec(c, o, ps, st)
    }
}

/// Handle a code (fenced or indented) node.
pub fn handle_code(node: &Node, _parent: Option<&Node>, state: &mut State, info: &Info) -> (r: String)
    requires
        node is Code ==> valid_fence(old(state).options.fence),
    ensures
        wrote(
            *final(state),
            r@,
            ser_with(
                cfg_of(*old(state)),
                ctx_of(*old(state)),
                HandlerFn::Code,
                *node,
                opt_node(_parent),
                info.before@,
                info.after@,
            ),
        ),
        preserved(*old(state), *final(state)),
        r@ == match *node {
            Node::Code(c) => code_spec(c, old(state).options, old(state).unsafe_patterns@, old(state).stack@),
            _ => Seq::empty(),
        },
{
    match node {
        Node::Code(code) => {
            let ghost s0 = *state;
            let marker = check_fence(&state.options);
            let raw = code.value.as_str();
            if format_code_as_indented(code, state) {
                state.enter(ConstructName::CodeIndented);
                let map = IndentMap::Prefix(owned("    "));
                let value = state.indent_lines(raw, &map);
                state.exit();
                proof {
                    assert(state.stack@ =~= s0.stack@);
                    reveal_strlit("    ");
                    assert(map@ == LineMap::Prefix("    "@));
                }
                return value;
            }
            let mut tracker = state.create_tracker(info);
            let longest = longest_streak(raw, marker);
            let mut sequence = repeat_char(marker, if longest > 2 { longest } else { 2 });
            crate::text::push_char(&mut sequence, marker);
            proof {
                assert(sequence@ =~= repeat_spec(marker, fence_count(raw@, marker)));
            }
            state.enter(ConstructName::CodeFenced);
            let mut value = tracker.move_past(sequence.as_str());
            let grave = marker == '`';
            let ghost fence = sequence@;
            let ghost ps = s0.unsafe_patterns@;
            let ghost st2 = s0.stack@.push(ConstructName::CodeFenced);
            let ghost lang_c = if grave {
                ConstructName::CodeFencedLangGraveAccent
            } else {
                ConstructName::CodeFencedLangTilde
            };
            let ghost meta_c = if grave {
                ConstructName::CodeFencedMetaGraveAccent
            } else {
                ConstructName::CodeFencedMetaTilde
            };
            proof {
                reveal_strlit(" ");
                reveal_strlit("\n");
            }
            match &code.lang {
                Some(lang) => {
                    let construct = if grave {
                        ConstructName::CodeFencedLangGraveAccent
                    } else {
                        ConstructName::CodeFencedLangTilde
                    };
                    state.enter(construct);
                    let mut encode = Vec::new();
                    encode.push('`');
                    let config = SafeConfig { before: owned(value.as_str()), after: owned(" "), encode };
                    proof {
                        assert(config.encode@ =~= seq!['`']);
                    }
                    let safe_lang = state.safe(Some(lang.as_str()), &config);
                    let moved = tracker.move_past(safe_lang.as_str());
                    push_str(&mut value, moved.as_str());
                    state.exit();
                    proof {
                        assert(value@ == fence + safe_spec(ps, st2.push(lang_c), fence, lang@, " "@, seq!['`']));
                        assert(state.stack@ =~= st2);
                    }
                },
                None => {},
            }
            let ghost with_lang = value@;
            if code.lang.is_some() {
                match &code.meta {
                    Some(meta) => {
                        let construct = if grave {
                            ConstructName::CodeFencedMetaGraveAccent
                        } else {
                            ConstructName::CodeFencedMetaTilde
                        };
                        state.enter(construct);
                        let sp = tracker.move_past(" ");
                        push_str(&mut value, sp.as_str());
                        let mut encode = Vec::new();
                        encode.push('`');
                        let config = SafeConfig { before: owned(value.as_str()), after: owned("\n"), encode };
                        proof {
                            assert(config.encode@ =~= seq!['`']);
                        }
                        let safe_meta = state.safe(Some(meta.as_str()), &config);
                        let moved = tracker.move_past(safe_meta.as_str());
                        push_str(&mut value, moved.as_str());
                        state.exit();
                        proof {
                            assert(value@ == with_lang + " "@ + safe_spec(
                                ps,
                                st2.push(meta_c),
                                with_lang + " "@,
                                meta@,
                                "\n"@,
                                seq!['`'],
                            ));
                        }
                    },
                    None => {},
                }
            }
            let eol = tracker.move_past("\n");
            push_str(&mut value, eol.as_str());
            if raw.unicode_len() > 0 {
                let mut body = owned(raw);
                push_str(&mut body, "\n");
                let moved = tracker.move_past(body.as_str());
                push_str(&mut value, moved.as_str());
            }
            let closing = tracker.move_past(sequence.as_str());
            push_str(&mut value, closing.as_str());
            state.exit();
            proof {
                assert(state.stack@ =~= s0.stack@);
                assert(value@ =~= fenced_code_spec(*code, s0.options, ps, s0.stack@));
            }
            value
        },
        _ => String::new(),
    }
}

}
