use crate::syntax::{
    Definition, ForeignItem, FunctionKind, FunctionLike, ImplItem, Item, Node, Span, SyntaxTree,
};
use vstd::prelude::*;

verus! {

/// The construct of kind `kind` with span `span`, where `span` covers `line`.
pub open spec fn hit<'a>(kind: FunctionKind, definition: &'a Definition, span: Span, line: nat) -> Option<
    FunctionLike<'a>,
> {
    if span.covers(line) {
        Some(FunctionLike { kind, definition, span })
    } else {
        None
    }
}

/// The declared function that `item` is, where its span covers `line`.
pub open spec fn locate_foreign<'a>(item: &'a ForeignItem, line: nat) -> Option<FunctionLike<'a>> {
    match &item.function {
        Some(definition) => hit(FunctionKind::ForeignDecl, definition, item.span, line),
        None => None,
    }
}

/// The first declared function among `items` from index `from` on whose span covers
/// `line`.
pub open spec fn locate_in_foreign_block<'a>(items: &'a Vec<ForeignItem>, from: int, line: nat) -> Option<
    FunctionLike<'a>,
>
    decreases items.len() - from,
{
    if from < 0 || from >= items.len() {
        None
    } else {
        match locate_foreign(&items[from], line) {
            Some(found) => Some(found),
            None => locate_in_foreign_block(items, from + 1, line),
        }
    }
}

/// The method that `item` is, where its span covers `line`.
pub open spec fn locate_method<'a>(item: &'a ImplItem, line: nat) -> Option<FunctionLike<'a>> {
    match &item.method {
        Some(definition) => hit(FunctionKind::Method, definition, item.span, line),
        None => None,
    }
}

/// The first method among `items` from index `from` on whose span covers `line`.
pub open spec fn locate_in_implementation<'a>(items: &'a Vec<ImplItem>, from: int, line: nat) -> Option<
    FunctionLike<'a>,
>
    decreases items.len() - from,
{
    if from < 0 || from >= items.len() {
        None
    } else {
        match locate_method(&items[from], line) {
            Some(found) => Some(found),
            None => locate_in_implementation(items, from + 1, line),
        }
    }
}

/// The function-like construct in `item` that `line` resolves to.
pub open spec fn locate_in_item<'a>(item: &'a Item, line: nat) -> Option<FunctionLike<'a>>
    decreases item, 0nat,
{
    match &item.node {
        Node::Function(definition) => hit(FunctionKind::Free, definition, item.span, line),
        Node::ForeignBlock(items) => locate_in_foreign_block(items, 0, line),
        Node::Implementation(items) => locate_in_implementation(items, 0, line),
        Node::MacroLegacy(definition) => hit(FunctionKind::MacroLegacy, definition, item.span, line),
        Node::MacroModern(definition) => hit(FunctionKind::MacroModern, definition, item.span, line),
        Node::Module(Some(items)) => if item.span.covers(line) {
            locate_in_items(items, 0, line)
        } else {
            None
        },
        Node::Module(None) => None,
        Node::Other => None,
    }
}

/// What `line` resolves to among `items` from index `from` on: the result for the first
/// item in which it resolves to anything.
pub open spec fn locate_in_items<'a>(items: &'a Vec<Item>, from: int, line: nat) -> Option<
    FunctionLike<'a>,
>
    decreases items, items.len() - from,
{
    if from < 0 || from >= items.len() {
        None
    } else {
        match locate_in_item(&items[from], line) {
            Some(found) => Some(found),
            None => locate_in_items(items, from + 1, line),
        }
    }
}

/// What `line` resolves to in `tree`.
pub open spec fn locate<'a>(tree: &'a SyntaxTree, line: nat) -> Option<FunctionLike<'a>> {
    locate_in_items(&tree.items, 0, line)
}

/// Finds the declared function that `item` is, where its span contains `target_line`.
pub fn find_foreign_function<'a>(item: &'a ForeignItem, target_line: usize) -> (found: Option<
    FunctionLike<'a>,
>)
    ensures
        found == locate_foreign(item, target_line as nat),
{
    match &item.function {
        Some(definition) => {
            if item.span.contains(target_line) {
                Some(FunctionLike { kind: FunctionKind::ForeignDecl, definition, span: item.span })
            } else {
                None
            }
        },
        None => None,
    }
}

/// Finds the method that `item` is, where its span contains `target_line`.
pub fn find_method<'a>(item: &'a ImplItem, target_line: usize) -> (found: Option<FunctionLike<'a>>)
    ensures
        found == locate_method(item, target_line as nat),
{
    match &item.method {
        Some(definition) => {
            if item.span.contains(target_line) {
                Some(FunctionLike { kind: FunctionKind::Method, definition, span: item.span })
            } else {
                None
            }
        },
        None => None,
    }
}

/// Finds the first declared function among `items` whose span contains `target_line`.
/// Every declaration of the block is tried, in order, down to the last.
pub fn find_in_foreign_block<'a>(items: &'a Vec<ForeignItem>, target_line: usize) -> (found: Option<
    FunctionLike<'a>,
>)
    ensures
        found == locate_in_foreign_block(items, 0, target_line as nat),
{
    let mut i: usize = 0;
    while i < items.len()
        invariant
            i <= items.len(),
            locate_in_foreign_block(items, i as int, target_line as nat)
                == locate_in_foreign_block(items, 0, target_line as nat),
        decreases items.len() - i,
    {
        let found = find_foreign_function(&items[i], target_line);
        if found.is_some() {
            return found;
        }
        i += 1;
    }
    None
}

/// Finds the first method among `items` whose span contains `target_line`. Items that
/// are no methods are passed over.
pub fn find_in_implementation<'a>(items: &'a Vec<ImplItem>, target_line: usize) -> (found: Option<
    FunctionLike<'a>,
>)
    ensures
        found == locate_in_implementation(items, 0, target_line as nat),
{
    let mut i: usize = 0;
    while i < items.len()
        invariant
            i <= items.len(),
            locate_in_implementation(items, i as int, target_line as nat)
                == locate_in_implementation(items, 0, target_line as nat),
        decreases items.len() - i,
    {
        let found = find_method(&items[i], target_line);
        if found.is_some() {
            return found;
        }
        i += 1;
    }
    None
}

/// Finds the function-like construct in `item` whose span contains `target_line`.
///
/// A free function and a macro match as a whole. In a block of foreign declarations
/// the first declared function that contains the line matches, in an implementation
/// block the first method. A module is entered only where its own span contains the
/// line, and its items are searched in the same way. No other item matches.
pub fn find_function_item<'a>(item: &'a Item, target_line: usize) -> (found: Option<
    FunctionLike<'a>,
>)
    ensures
        found == locate_in_item(item, target_line as nat),
    decreases item, 0nat,
{
    match &item.node {
        Node::Function(definition) => {
            if item.span.contains(target_line) {
                Some(FunctionLike { kind: FunctionKind::Free, definition, span: item.span })
            } else {
                None
            }
        },
        Node::ForeignBlock(items) => find_in_foreign_block(items, target_line),
        Node::Implementation(items) => find_in_implementation(items, target_line),
        Node::MacroLegacy(definition) => {
            if item.span.contains(target_line) {
                Some(FunctionLike { kind: FunctionKind::MacroLegacy, definition, span: item.span })
            } else {
                None
            }
        },
        Node::MacroModern(definition) => {
            if item.span.contains(target_line) {
                Some(FunctionLike { kind: FunctionKind::MacroModern, definition, span: item.span })
            } else {
                None
            }
        },
        Node::Module(Some(items)) => {
            if item.span.contains(target_line) {
                find_in_items(items, target_line)
            } else {
                None
            }
        },
        Node::Module(None) => None,
        Node::Other => None,
    }
}

/// Finds what `target_line` resolves to among `items`: the result for the first item
/// in which it resolves to anything.
pub fn find_in_items<'a>(items: &'a Vec<Item>, target_line: usize) -> (found: Option<
    FunctionLike<'a>,
>)
    ensures
        found == locate_in_items(items, 0, target_line as nat),
    decreases items, 1nat,
{
    let mut i: usize = 0;
    while i < items.len()
        invariant
            i <= items.len(),
            locate_in_items(items, i as int, target_line as nat) == locate_in_items(
                items,
                0,
                target_line as nat,
            ),
        decreases items.len() - i,
    {
        let found = find_function_item(&items[i], target_line);
        if found.is_some() {
            return found;
        }
        i += 1;
    }
    None
}

/// Finds the function-like construct of `ast` whose span contains `target_line`: the
/// first one, items taken in declaration order and each module before the items that
/// follow it.
pub fn find_function_by_start_line<'a>(ast: &'a SyntaxTree, target_line: usize) -> (found: Option<
    FunctionLike<'a>,
>)
    ensures
        found == locate(ast, target_line as nat),
{
    find_in_items(&ast.items, target_line)
}

} // verus!
