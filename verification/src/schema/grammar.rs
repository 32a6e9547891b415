//! The grammar of type identifiers: which texts are read as a tree, and as
//! which tree.
//!
//! A tree is a tuple or a path. A tuple is `(`, trees with `,` between them
//! or none at all, and `)`. A path is segments of letters, digits and `_`
//! with `::` between them, followed by `<`, at least one tree with `,`
//! between the trees, and `>` where it has type arguments. Spaces may stand
//! around trees and before the brackets of arguments, and nowhere else.

use crate::schema::id::SchemaIdTree;
use vstd::prelude::*;

verus! {

/// Mathematical model of a [`SchemaIdTree`].
pub enum SchemaIdTreeView {
    Tuple(Seq<SchemaIdTreeView>),
    Path { path: Seq<Seq<char>>, args: Seq<SchemaIdTreeView> },
}

/// The model of a tree.
pub open spec fn tree_view(tree: SchemaIdTree) -> SchemaIdTreeView
    decreases tree, 0int,
{
    match tree {
        SchemaIdTree::Tuple(list) => SchemaIdTreeView::Tuple(trees_view(list@)),
        SchemaIdTree::Path { path, args } => SchemaIdTreeView::Path {
            path: path_view(path@),
            args: trees_view(args@),
        },
    }
}

/// The models of a list of trees.
pub open spec fn trees_view(list: Seq<SchemaIdTree>) -> Seq<SchemaIdTreeView>
    decreases list, 1int,
{
    Seq::new(
        list.len(),
        |i: int|
            if 0 <= i < list.len() {
                tree_view(list[i])
            } else {
                SchemaIdTreeView::Tuple(Seq::empty())
            },
    )
}

/// The texts of the segments of a path.
pub open spec fn path_view(path: Seq<String>) -> Seq<Seq<char>> {
    Seq::new(path.len(), |i: int| path[i]@)
}

/// Whether a character may stand in a segment of a path.
pub open spec fn is_segment_char(c: char) -> bool {
    ('a' <= c && c <= 'z') || ('A' <= c && c <= 'Z') || ('0' <= c && c <= '9') || c == '_'
}

/// Whether the character `c` stands at position `at` of the text.
pub open spec fn has_char(text: Seq<char>, at: int, c: char) -> bool {
    0 <= at < text.len() && text[at] == c
}

/// The count of spaces that stand in a row from position `pos` on.
pub open spec fn spaces_len(text: Seq<char>, pos: int) -> nat
    decreases text.len() - pos,
{
    if has_char(text, pos, ' ') {
        1 + spaces_len(text, pos + 1)
    } else {
        0
    }
}

/// The count of segment characters that stand in a row from position `pos`
/// on.
pub open spec fn segment_len(text: Seq<char>, pos: int) -> nat
    decreases text.len() - pos,
{
    if 0 <= pos < text.len() && is_segment_char(text[pos]) {
        1 + segment_len(text, pos + 1)
    } else {
        0
    }
}

/// Spaces in a row end within the text.
pub proof fn lemma_spaces_bound(text: Seq<char>, pos: int)
    ensures
        spaces_len(text, pos) > 0 ==> 0 <= pos < text.len(),
        0 <= pos <= text.len() ==> pos + spaces_len(text, pos) <= text.len(),
        !has_char(text, pos + spaces_len(text, pos), ' '),
    decreases text.len() - pos,
{
    if has_char(text, pos, ' ') {
        lemma_spaces_bound(text, pos + 1);
    }
}

/// Segment characters in a row end within the text.
pub proof fn lemma_segment_bound(text: Seq<char>, pos: int)
    ensures
        segment_len(text, pos) > 0 ==> 0 <= pos < text.len(),
        0 <= pos <= text.len() ==> pos + segment_len(text, pos) <= text.len(),
    decreases text.len() - pos,
{
    if 0 <= pos < text.len() && is_segment_char(text[pos]) {
        lemma_segment_bound(text, pos + 1);
    }
}

/// The path that starts at position `pos`, with the count of characters that
/// it takes: a segment of at least one character and what follows it.
pub open spec fn path_spec(text: Seq<char>, pos: int) -> Option<(Seq<Seq<char>>, nat)>
    decreases text.len() - pos, 0int,
{
    let n = segment_len(text, pos);
    if n == 0 {
        None
    } else {
        proof {
            lemma_segment_bound(text, pos);
        }
        match path_tail(text, pos + n) {
            Some((rest, m)) => Some((seq![text.subrange(pos, pos + n)] + rest, n + m)),
            None => None,
        }
    }
}

/// The further segments of a path of which a segment ends at position `pos`,
/// with the count of characters that they take: none where no `::` follows,
/// and else the path after the `::`.
pub open spec fn path_tail(text: Seq<char>, pos: int) -> Option<(Seq<Seq<char>>, nat)>
    decreases text.len() - pos, 1int,
{
    if has_char(text, pos, ':') && has_char(text, pos + 1, ':') {
        match path_spec(text, pos + 2) {
            Some((rest, m)) => Some((rest, 2 + m)),
            None => None,
        }
    } else {
        Some((Seq::empty(), 0))
    }
}

/// The tree that starts at position `pos`, with the count of characters that
/// it takes.
pub open spec fn element_spec(text: Seq<char>, pos: int) -> Option<(SchemaIdTreeView, nat)>
    decreases text.len() - pos, 0int,
{
    if has_char(text, pos, '(') {
        let inner = spaces_len(text, pos + 1);
        if has_char(text, pos + 1 + inner, ')') {
            Some((SchemaIdTreeView::Tuple(Seq::empty()), inner + 2))
        } else {
            match list_spec(text, pos + 1) {
                Some((list, m)) => if has_char(text, pos + 1 + m, ')') {
                    Some((SchemaIdTreeView::Tuple(list), m + 2))
                } else {
                    None
                },
                None => None,
            }
        }
    } else {
        match path_spec(text, pos) {
            Some((path, n)) => {
                let gap = spaces_len(text, pos + n);
                if has_char(text, pos + n + gap, '<') {
                    match list_spec(text, pos + n + gap + 1) {
                        Some((args, m)) => if has_char(text, pos + n + gap + 1 + m, '>') {
                            Some((SchemaIdTreeView::Path { path, args }, n + gap + m + 2))
                        } else {
                            None
                        },
                        None => None,
                    }
                } else {
                    Some((SchemaIdTreeView::Path { path, args: Seq::empty() }, n))
                }
            },
            None => None,
        }
    }
}

/// The trees that start at position `pos`, with the count of characters that
/// they take together with the spaces around them: at least one tree, and
/// further trees after each `,`.
pub open spec fn list_spec(text: Seq<char>, pos: int) -> Option<(Seq<SchemaIdTreeView>, nat)>
    decreases text.len() - pos, 1int,
{
    let lead = spaces_len(text, pos);
    if pos < 0 || pos > text.len() {
        None
    } else {
        proof {
            lemma_spaces_bound(text, pos);
        }
        match element_spec(text, pos + lead) {
            Some((tree, n)) => {
                let trail = spaces_len(text, pos + lead + n);
                if has_char(text, pos + lead + n + trail, ',') {
                    match list_spec(text, pos + lead + n + trail + 1) {
                        Some((rest, m)) => Some((seq![tree] + rest, lead + n + trail + 1 + m)),
                        None => None,
                    }
                } else {
                    Some((seq![tree], lead + n + trail))
                }
            },
            None => None,
        }
    }
}

/// The tree that a text is read as: the tree that starts after the leading
/// spaces of the text, where it reaches, with the spaces that follow it, the
/// end of the text.
pub open spec fn tree_spec(text: Seq<char>) -> Option<SchemaIdTreeView> {
    let lead = spaces_len(text, 0);
    match element_spec(text, lead as int) {
        Some((tree, n)) => if lead + n + spaces_len(text, (lead + n) as int) == text.len() {
            Some(tree)
        } else {
            None
        },
        None => None,
    }
}

/// Joins the trees that were read with those that follow.
pub open spec fn join_list(
    read: Seq<SchemaIdTreeView>,
    taken: int,
    rest: Option<(Seq<SchemaIdTreeView>, nat)>,
) -> Option<(Seq<SchemaIdTreeView>, nat)> {
    match rest {
        Some((list, m)) => Some((read + list, (taken + m) as nat)),
        None => None,
    }
}

/// Joins the segments that were read with those that follow.
pub open spec fn join_path(
    read: Seq<Seq<char>>,
    taken: int,
    rest: Option<(Seq<Seq<char>>, nat)>,
) -> Option<(Seq<Seq<char>>, nat)> {
    match rest {
        Some((path, m)) => Some((read + path, (taken + m) as nat)),
        None => None,
    }
}

} // verus!
