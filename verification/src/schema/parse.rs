//! Reading the text of a type identifier as a tree.
//!
//! The readers follow the grammar of type identifiers: each says, by the
//! grammar, whether a tree, a path or a list starts at a position, which one,
//! and where it ends. What is read has, spaces aside, the text that was read.

use crate::schema::grammar::{
    element_spec, has_char, is_segment_char, join_list, join_path, list_spec, path_spec,
    path_tail, path_view, segment_len, spaces_len, tree_spec, tree_view, trees_view,
    SchemaIdTreeView,
};
use crate::schema::id::{
    render_list, render_path, render_tree, SchemaId, SchemaIdContainer, SchemaIdTree,
};
use vstd::prelude::*;

verus! {

/// A text without its spaces.
pub open spec fn strip(s: Seq<char>) -> Seq<char>
    decreases s.len(),
{
    if s.len() == 0 {
        Seq::empty()
    } else if s.last() == ' ' {
        strip(s.drop_last())
    } else {
        strip(s.drop_last()).push(s.last())
    }
}

/// Stripping two texts and joining them is stripping the joined text.
pub proof fn lemma_strip_concat(a: Seq<char>, b: Seq<char>)
    ensures
        strip(a + b) == strip(a) + strip(b),
    decreases b.len(),
{
    if b.len() == 0 {
        assert(a + b =~= a);
        assert(strip(a) + strip(b) =~= strip(a));
    } else {
        assert((a + b).drop_last() =~= a + b.drop_last());
        assert((a + b).last() == b.last());
        lemma_strip_concat(a, b.drop_last());
        if b.last() == ' ' {
        } else {
            assert((strip(a) + strip(b.drop_last())).push(b.last()) =~= strip(a) + strip(
                b.drop_last(),
            ).push(b.last()));
        }
    }
}

/// A text without spaces is its own stripped form.
pub proof fn lemma_strip_clean(s: Seq<char>)
    requires
        forall|i: int| 0 <= i < s.len() ==> s[i] != ' ',
    ensures
        strip(s) == s,
    decreases s.len(),
{
    if s.len() > 0 {
        lemma_strip_clean(s.drop_last());
        assert(s.drop_last().push(s.last()) =~= s);
    }
}

/// Stripping a part of a text piece by piece.
pub proof fn lemma_strip_split(text: Seq<char>, a: int, b: int, c: int)
    requires
        0 <= a <= b <= c <= text.len(),
    ensures
        strip(text.subrange(a, c)) == strip(text.subrange(a, b)) + strip(text.subrange(b, c)),
{
    assert(text.subrange(a, c) =~= text.subrange(a, b) + text.subrange(b, c));
    lemma_strip_concat(text.subrange(a, b), text.subrange(b, c));
}

/// Stripping a single character.
pub proof fn lemma_strip_one(text: Seq<char>, i: int)
    requires
        0 <= i < text.len(),
    ensures
        strip(text.subrange(i, i + 1)) == if text[i] == ' ' {
            Seq::<char>::empty()
        } else {
            seq![text[i]]
        },
{
    let one = text.subrange(i, i + 1);
    assert(one.drop_last() =~= Seq::<char>::empty());
    assert(one.last() == text[i]);
    assert(strip(one.drop_last()) =~= Seq::<char>::empty());
    if text[i] != ' ' {
        assert(Seq::<char>::empty().push(text[i]) =~= seq![text[i]]);
    }
}

/// The text of a path with one more segment.
pub proof fn lemma_render_path_push(path: Seq<String>, segment: String, k: int)
    requires
        0 <= k <= path.len(),
    ensures
        render_path(path.push(segment), k) == render_path(path, k) + (if path.len() > 0 {
            "::"@
        } else {
            Seq::<char>::empty()
        }) + segment@,
    decreases path.len() - k,
{
    let longer = path.push(segment);
    let sep = if path.len() > 0 {
        "::"@
    } else {
        Seq::<char>::empty()
    };
    if k == path.len() {
        assert(longer[k] == segment);
        assert(render_path(longer, k + 1) =~= Seq::<char>::empty());
        assert(render_path(path, k) =~= Seq::<char>::empty());
        assert(render_path(longer, k) =~= render_path(path, k) + sep + segment@);
    } else {
        assert(longer[k] == path[k]);
        lemma_render_path_push(path, segment, k + 1);
        assert(render_path(longer, k) =~= render_path(path, k) + sep + segment@);
    }
}

/// The text of a list of trees with one more tree.
pub proof fn lemma_render_list_push(list: Seq<SchemaIdTree>, tree: SchemaIdTree, k: int)
    requires
        0 <= k <= list.len(),
    ensures
        render_list(list.push(tree), k) == render_list(list, k) + (if list.len() > 0 {
            ", "@
        } else {
            Seq::<char>::empty()
        }) + render_tree(tree),
    decreases list.len() - k,
{
    let longer = list.push(tree);
    let sep = if list.len() > 0 {
        ", "@
    } else {
        Seq::<char>::empty()
    };
    if k == list.len() {
        assert(longer[k] == tree);
        assert(render_list(longer, k + 1) =~= Seq::<char>::empty());
        assert(render_list(list, k) =~= Seq::<char>::empty());
        assert(render_list(longer, k) =~= render_list(list, k) + sep + render_tree(tree));
    } else {
        assert(longer[k] == list[k]);
        lemma_render_list_push(list, tree, k + 1);
        assert(render_list(longer, k) =~= render_list(list, k) + sep + render_tree(tree));
    }
}

/// Tests whether a character may stand in a segment of a path.
pub fn segment_char(c: char) -> (r: bool)
    ensures
        r == is_segment_char(c),
{
    ('a' <= c && c <= 'z') || ('A' <= c && c <= 'Z') || ('0' <= c && c <= '9') || c == '_'
}

/// The position of the first character at or after `pos` that is no space.
fn skip_spaces(text: &str, len: usize, pos: usize) -> (end: usize)
    requires
        len == text@.len(),
        pos <= len,
    ensures
        pos <= end <= len,
        end == pos + spaces_len(text@, pos as int),
        strip(text@.subrange(pos as int, end as int)) == Seq::<char>::empty(),
        end < len ==> text@[end as int] != ' ',
{
    let mut i: usize = pos;
    proof {
        assert(text@.subrange(pos as int, pos as int) =~= Seq::<char>::empty());
    }
    while i < len && text.get_char(i) == ' '
        invariant
            len == text@.len(),
            pos <= i <= len,
            pos + spaces_len(text@, pos as int) == i + spaces_len(text@, i as int),
            strip(text@.subrange(pos as int, i as int)) == Seq::<char>::empty(),
        decreases len - i,
    {
        proof {
            lemma_strip_split(text@, pos as int, i as int, i + 1);
            lemma_strip_one(text@, i as int);
        }
        i += 1;
    }
    i
}

/// Reads a segment of a path that starts at `pos`.
fn parse_segment(text: &str, len: usize, pos: usize) -> (r: Option<(String, usize)>)
    requires
        len == text@.len(),
        pos <= len,
    ensures
        match r {
            Some((segment, end)) => pos < end <= len && end == pos + segment_len(
                text@,
                pos as int,
            ) && segment@ == text@.subrange(pos as int, end as int),
            None => segment_len(text@, pos as int) == 0,
        },
{
    let mut i: usize = pos;
    while i < len && segment_char(text.get_char(i))
        invariant
            len == text@.len(),
            pos <= i <= len,
            pos + segment_len(text@, pos as int) == i + segment_len(text@, i as int),
        decreases len - i,
    {
        i += 1;
    }
    if i == pos {
        None
    } else {
        Some((text.substring_char(pos, i).to_owned(), i))
    }
}

/// Reads a path that starts at `pos`: segments with `::` between them.
fn parse_path(text: &str, len: usize, pos: usize) -> (r: Option<(Vec<String>, usize)>)
    requires
        len == text@.len(),
        pos <= len,
    ensures
        match r {
            Some((path, end)) => pos < end <= len && path@.len() > 0 && path_spec(
                text@,
                pos as int,
            ) == Some((path_view(path@), (end - pos) as nat)) && render_path(path@, 0)
                == text@.subrange(pos as int, end as int),
            None => path_spec(text@, pos as int).is_none(),
        },
{
    let first = match parse_segment(text, len, pos) {
        Some(first) => first,
        None => {
            return None;
        },
    };
    let mut path: Vec<String> = Vec::new();
    let mut end = first.1;
    proof {
        lemma_render_path_push(path@, first.0, 0);
        assert(render_path(path@, 0) =~= Seq::<char>::empty());
        assert(Seq::<char>::empty() + Seq::<char>::empty() + first.0@ =~= first.0@);
        assert(path_view(path@.push(first.0)) =~= seq![text@.subrange(pos as int, end as int)]);
        match path_tail(text@, end as int) {
            Some((rest, m)) => {
                assert((end - pos + m) as nat == segment_len(text@, pos as int) + m);
            },
            None => {},
        }
    }
    path.push(first.0);
    while end < len && len - end > 1 && text.get_char(end) == ':' && text.get_char(end + 1) == ':'
        invariant
            len == text@.len(),
            pos < end <= len,
            path@.len() > 0,
            path_spec(text@, pos as int) == join_path(
                path_view(path@),
                end - pos,
                path_tail(text@, end as int),
            ),
            render_path(path@, 0) == text@.subrange(pos as int, end as int),
        decreases len - end,
    {
        let ghost read = path_view(path@);
        let next = match parse_segment(text, len, end + 2) {
            Some(next) => next,
            None => {
                proof {
                    assert(path_spec(text@, end + 2).is_none());
                }
                return None;
            },
        };
        proof {
            let t = text@;
            let segment = t.subrange(end + 2, next.1 as int);
            assert(path_view(path@.push(next.0)) =~= read.push(segment));
            match path_tail(t, next.1 as int) {
                Some((rest, m)) => {
                    assert(path_spec(t, end + 2) == Some(
                        (seq![segment] + rest, (next.1 - (end + 2) + m) as nat),
                    ));
                    assert(read + (seq![segment] + rest) =~= read.push(segment) + rest);
                },
                None => {
                    assert(path_spec(t, end + 2).is_none());
                },
            }
        }
        proof {
            reveal_strlit("::");
            lemma_render_path_push(path@, next.0, 0);
            assert("::"@ =~= text@.subrange(end as int, end + 2));
            assert(text@.subrange(pos as int, end as int) + text@.subrange(end as int, end + 2)
                + text@.subrange(end + 2, next.1 as int) =~= text@.subrange(
                pos as int,
                next.1 as int,
            ));
        }
        path.push(next.0);
        end = next.1;
    }
    proof {
        assert(path_tail(text@, end as int) == Some((Seq::<Seq<char>>::empty(), 0nat)));
        assert(path_view(path@) + Seq::<Seq<char>>::empty() =~= path_view(path@));
    }
    Some((path, end))
}

/// Reads a list of trees that starts at `pos`: at least one tree, with commas
/// between the trees and spaces around them.
fn parse_list(text: &str, len: usize, pos: usize) -> (r: Option<(Vec<SchemaIdTree>, usize)>)
    requires
        len == text@.len(),
        pos <= len,
    ensures
        match r {
            Some((list, end)) => pos < end <= len && list@.len() > 0 && list_spec(
                text@,
                pos as int,
            ) == Some((trees_view(list@), (end - pos) as nat)) && strip(render_list(list@, 0))
                == strip(text@.subrange(pos as int, end as int)),
            None => list_spec(text@, pos as int).is_none(),
        },
    decreases len - pos, 2int,
{
    let mut list: Vec<SchemaIdTree> = Vec::new();
    let mut cur: usize = pos;
    proof {
        assert(text@.subrange(pos as int, pos as int) =~= Seq::<char>::empty());
        assert(render_list(list@, 0) =~= Seq::<char>::empty());
        match list_spec(text@, pos as int) {
            Some((rest, m)) => {
                assert(trees_view(list@) + rest =~= rest);
            },
            None => {},
        }
    }
    loop
        invariant
            len == text@.len(),
            pos <= cur <= len,
            list@.len() == 0 ==> cur == pos,
            list_spec(text@, pos as int) == join_list(
                trees_view(list@),
                cur - pos,
                list_spec(text@, cur as int),
            ),
            strip(text@.subrange(pos as int, cur as int)) == strip(render_list(list@, 0)) + (
            if list@.len() > 0 {
                seq![',']
            } else {
                Seq::<char>::empty()
            }),
        decreases len - cur,
    {
        let ghost read = trees_view(list@);
        let start = skip_spaces(text, len, cur);
        let item = match parse_element(text, len, start) {
            Some(item) => item,
            None => {
                proof {
                    assert(list_spec(text@, cur as int).is_none());
                }
                return None;
            },
        };
        let after = skip_spaces(text, len, item.1);
        proof {
            let t = text@;
            let model = tree_view(item.0);
            assert(trees_view(list@.push(item.0)) =~= read.push(model));
            if has_char(t, after as int, ',') {
                match list_spec(t, after + 1) {
                    Some((rest, m)) => {
                        assert(list_spec(t, cur as int) == Some(
                            (seq![model] + rest, (after + 1 + m - cur) as nat),
                        ));
                        assert(read + (seq![model] + rest) =~= read.push(model) + rest);
                    },
                    None => {
                        assert(list_spec(t, cur as int).is_none());
                    },
                }
            } else {
                assert(list_spec(t, cur as int) == Some((seq![model], (after - cur) as nat)));
                assert(read + seq![model] =~= read.push(model));
            }
        }
        proof {
            let t = text@;
            reveal_strlit(", ");
            lemma_render_list_push(list@, item.0, 0);
            lemma_strip_split(t, pos as int, cur as int, after as int);
            lemma_strip_split(t, cur as int, start as int, after as int);
            lemma_strip_split(t, start as int, item.1 as int, after as int);
            let sep = if list@.len() > 0 {
                ", "@
            } else {
                Seq::<char>::empty()
            };
            lemma_strip_concat(render_list(list@, 0), sep);
            lemma_strip_concat(render_list(list@, 0) + sep, render_tree(item.0));
            if list@.len() > 0 {
                let spaced = seq![',', ' '];
                assert(", "@ =~= spaced);
                assert(spaced.drop_last() =~= seq![',']);
                assert(spaced.last() == ' ');
                lemma_strip_clean(seq![',']);
                assert(strip(spaced) == strip(spaced.drop_last()));
                assert(strip(", "@) =~= seq![',']);
            } else {
                assert(strip(sep) =~= Seq::<char>::empty());
            }
            assert(strip(t.subrange(pos as int, after as int)) =~= strip(
                render_list(list@.push(item.0), 0),
            ));
        }
        list.push(item.0);
        if after < len && text.get_char(after) == ',' {
            proof {
                lemma_strip_split(text@, pos as int, after as int, after + 1);
                lemma_strip_one(text@, after as int);
            }
            cur = after + 1;
        } else {
            return Some((list, after));
        }
    }
}

/// Reads a tuple whose `(` stands at `pos`.
fn parse_tuple(text: &str, len: usize, pos: usize) -> (r: Option<(SchemaIdTree, usize)>)
    requires
        len == text@.len(),
        pos < len,
        text@[pos as int] == '(',
    ensures
        match r {
            Some((tree, end)) => pos < end <= len && element_spec(text@, pos as int) == Some(
                (tree_view(tree), (end - pos) as nat),
            ) && strip(render_tree(tree)) == strip(text@.subrange(pos as int, end as int)),
            None => element_spec(text@, pos as int).is_none(),
        },
    decreases len - pos, 0int,
{
    let inner = skip_spaces(text, len, pos + 1);
    if inner < len && text.get_char(inner) == ')' {
        let list: Vec<SchemaIdTree> = Vec::new();
        let tree = SchemaIdTree::Tuple(list);
        proof {
            assert(trees_view(list@) =~= Seq::<SchemaIdTreeView>::empty());
        }
        proof {
            let t = text@;
            reveal_strlit("(");
            reveal_strlit(")");
            assert(render_list(list@, 0) =~= Seq::<char>::empty());
            assert(render_tree(tree) =~= seq!['(', ')']);
            lemma_strip_clean(seq!['(', ')']);
            lemma_strip_split(t, pos as int, pos + 1, inner + 1);
            lemma_strip_split(t, pos + 1, inner as int, inner + 1);
            lemma_strip_one(t, pos as int);
            lemma_strip_one(t, inner as int);
            assert(strip(t.subrange(pos as int, inner + 1)) =~= seq!['(', ')']);
        }
        return Some((tree, inner + 1));
    }
    let found = match parse_list(text, len, pos + 1) {
        Some(found) => found,
        None => {
            return None;
        },
    };
    if found.1 < len && text.get_char(found.1) == ')' {
        let ghost items = render_list(found.0@, 0);
        let tree = SchemaIdTree::Tuple(found.0);
        proof {
            let t = text@;
            reveal_strlit("(");
            reveal_strlit(")");
            lemma_strip_concat("("@, items);
            lemma_strip_concat("("@ + items, ")"@);
            lemma_strip_clean("("@);
            lemma_strip_clean(")"@);
            lemma_strip_split(t, pos as int, pos + 1, found.1 + 1);
            lemma_strip_split(t, pos + 1, found.1 as int, found.1 + 1);
            lemma_strip_one(t, pos as int);
            lemma_strip_one(t, found.1 as int);
            assert("("@ =~= seq!['(']);
            assert(")"@ =~= seq![')']);
        }
        return Some((tree, found.1 + 1));
    }
    return None;
}

/// Reads a path that starts at `pos`, with its type arguments, if any.
fn parse_named(text: &str, len: usize, pos: usize) -> (r: Option<(SchemaIdTree, usize)>)
    requires
        len == text@.len(),
        pos <= len,
        !has_char(text@, pos as int, '('),
    ensures
        match r {
            Some((tree, end)) => pos < end <= len && element_spec(text@, pos as int) == Some(
                (tree_view(tree), (end - pos) as nat),
            ) && strip(render_tree(tree)) == strip(text@.subrange(pos as int, end as int)),
            None => element_spec(text@, pos as int).is_none(),
        },
    decreases len - pos, 0int,
{
    let head = match parse_path(text, len, pos) {
        Some(head) => head,
        None => {
            return None;
        },
    };
    let open = skip_spaces(text, len, head.1);
    if open < len && text.get_char(open) == '<' {
        let found = match parse_list(text, len, open + 1) {
            Some(found) => found,
            None => {
                return None;
            },
        };
        if found.1 < len && text.get_char(found.1) == '>' {
            let ghost segments = render_path(head.0@, 0);
            let ghost items = render_list(found.0@, 0);
            let tree = SchemaIdTree::Path { path: head.0, args: found.0 };
            proof {
                let t = text@;
                reveal_strlit("<");
                reveal_strlit(">");
                assert(render_tree(tree) == segments + "<"@ + items + ">"@);
                lemma_strip_concat(segments, "<"@);
                lemma_strip_concat(segments + "<"@, items);
                lemma_strip_concat(segments + "<"@ + items, ">"@);
                lemma_strip_clean("<"@);
                lemma_strip_clean(">"@);
                lemma_strip_split(t, pos as int, head.1 as int, found.1 + 1);
                lemma_strip_split(t, head.1 as int, open as int, found.1 + 1);
                lemma_strip_split(t, open as int, open + 1, found.1 + 1);
                lemma_strip_split(t, open + 1, found.1 as int, found.1 + 1);
                lemma_strip_one(t, open as int);
                lemma_strip_one(t, found.1 as int);
                assert("<"@ =~= seq!['<']);
                assert(">"@ =~= seq!['>']);
            }
            return Some((tree, found.1 + 1));
        }
        return None;
    }
    let args: Vec<SchemaIdTree> = Vec::new();
    proof {
        assert(trees_view(args@) =~= Seq::<SchemaIdTreeView>::empty());
    }
    let tree = SchemaIdTree::Path { path: head.0, args };
    Some((tree, head.1))
}

/// Reads a tree that starts at `pos`: a tuple in round brackets, or a path
/// with its type arguments, if any, in angle brackets.
fn parse_element(text: &str, len: usize, pos: usize) -> (r: Option<(SchemaIdTree, usize)>)
    requires
        len == text@.len(),
        pos <= len,
    ensures
        match r {
            Some((tree, end)) => pos < end <= len && element_spec(text@, pos as int) == Some(
                (tree_view(tree), (end - pos) as nat),
            ) && strip(render_tree(tree)) == strip(text@.subrange(pos as int, end as int)),
            None => element_spec(text@, pos as int).is_none(),
        },
    decreases len - pos, 1int,
{
    if pos < len && text.get_char(pos) == '(' {
        parse_tuple(text, len, pos)
    } else {
        parse_named(text, len, pos)
    }
}

impl SchemaId {
    /// Reads the text of this identifier as a tree, by the grammar of type
    /// identifiers. The tree that comes out has, spaces aside, the text of
    /// the identifier; `None` comes out where the text is not that of a tree.
    pub fn tree(&self) -> (r: Option<SchemaIdTree>)
        ensures
            match r {
                Some(tree) => tree_spec(self.0@) == Some(tree_view(tree)) && strip(
                    render_tree(tree),
                ) == strip(self.0@),
                None => tree_spec(self.0@).is_none(),
            },
    {
        let text = self.0.as_str();
        let len = text.unicode_len();
        let start = skip_spaces(text, len, 0);
        let found = match parse_element(text, len, start) {
            Some(found) => found,
            None => {
                return None;
            },
        };
        let end = skip_spaces(text, len, found.1);
        if end == len {
            proof {
                let t = text@;
                lemma_strip_split(t, 0, start as int, len as int);
                lemma_strip_split(t, start as int, found.1 as int, len as int);
                assert(t.subrange(0, len as int) =~= t);
                assert(Seq::<char>::empty() + strip(render_tree(found.0)) + Seq::<char>::empty()
                    =~= strip(render_tree(found.0)));
            }
            Some(found.0)
        } else {
            None
        }
    }
}

impl SchemaIdContainer {
    /// The tree form: the tree itself, or the text read as a tree where it
    /// is one.
    pub fn try_into_tree(self) -> (r: Option<SchemaIdTree>)
        ensures
            match self {
                SchemaIdContainer::Id(id) => match r {
                    Some(tree) => tree_spec(id.0@) == Some(tree_view(tree)) && strip(
                        render_tree(tree),
                    ) == strip(id.0@),
                    None => tree_spec(id.0@).is_none(),
                },
                SchemaIdContainer::Tree(tree) => r == Some(tree),
            },
    {
        match self {
            SchemaIdContainer::Id(id) => id.tree(),
            SchemaIdContainer::Tree(tree) => Some(tree),
        }
    }
}

} // verus!
