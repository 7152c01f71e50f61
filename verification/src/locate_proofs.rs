use crate::locator::{
    locate, locate_foreign, locate_in_foreign_block, locate_in_implementation, locate_in_item,
    locate_in_items, locate_method,
};
use crate::syntax::{
    item_well_formed, tree_well_formed, ForeignItem, FunctionKind, FunctionLike, ImplItem, Item,
    Node, SyntaxTree,
};
use vstd::prelude::*;

verus! {

/// What a line resolves to in a block of foreign declarations is a declared function
/// of the block whose span covers the line.
pub proof fn lemma_foreign_block_result(items: &Vec<ForeignItem>, from: int, line: nat)
    requires
        0 <= from,
    ensures
        locate_in_foreign_block(items, from, line) matches Some(found) ==> exists|i: int|
            from <= i < items.len() && (#[trigger] items[i]).function == Some(*found.definition)
                && found.span == items[i].span && found.kind == FunctionKind::ForeignDecl
                && found.span.covers(line),
    decreases items.len() - from,
{
    if from < items.len() {
        if locate_foreign(&items[from], line) is None {
            lemma_foreign_block_result(items, from + 1, line);
        }
    }
}

/// What a line resolves to in an implementation block is a method of the block whose
/// span covers the line.
pub proof fn lemma_implementation_result(items: &Vec<ImplItem>, from: int, line: nat)
    requires
        0 <= from,
    ensures
        locate_in_implementation(items, from, line) matches Some(found) ==> exists|i: int|
            from <= i < items.len() && (#[trigger] items[i]).method == Some(*found.definition)
                && found.span == items[i].span && found.kind == FunctionKind::Method
                && found.span.covers(line),
    decreases items.len() - from,
{
    if from < items.len() {
        if locate_method(&items[from], line) is None {
            lemma_implementation_result(items, from + 1, line);
        }
    }
}

/// The span of what a line resolves to in an item covers the line.
pub proof fn lemma_found_span_covers(item: &Item, line: nat)
    ensures
        locate_in_item(item, line) matches Some(found) ==> found.span.covers(line),
    decreases item, 0nat,
{
    match &item.node {
        Node::ForeignBlock(items) => lemma_foreign_block_result(items, 0, line),
        Node::Implementation(items) => lemma_implementation_result(items, 0, line),
        Node::Module(Some(items)) => {
            if item.span.covers(line) {
                lemma_found_span_covers_among(items, 0, line);
            }
        },
        _ => {},
    }
}

/// The span of what a line resolves to among items covers the line.
pub proof fn lemma_found_span_covers_among(items: &Vec<Item>, from: int, line: nat)
    requires
        0 <= from,
    ensures
        locate_in_items(items, from, line) matches Some(found) ==> found.span.covers(line),
    decreases items, items.len() - from,
{
    if from < items.len() {
        lemma_found_span_covers(&items[from], line);
        lemma_found_span_covers_among(items, from + 1, line);
    }
}

/// The span of what a line resolves to in a tree covers the line.
pub proof fn lemma_located_span_covers(tree: &SyntaxTree, line: nat)
    ensures
        locate(tree, line) matches Some(found) ==> found.span.covers(line),
{
    lemma_found_span_covers_among(&tree.items, 0, line);
}

/// A line outside the span of a well-formed item resolves to nothing in it.
pub proof fn lemma_outside_item_unresolved(item: &Item, line: nat)
    requires
        item_well_formed(item),
        !item.span.covers(line),
    ensures
        locate_in_item(item, line) is None,
{
    match &item.node {
        Node::ForeignBlock(items) => {
            lemma_foreign_block_result(items, 0, line);
        },
        Node::Implementation(items) => {
            lemma_implementation_result(items, 0, line);
        },
        _ => {},
    }
}

/// Where no item from index `from` on resolves a line, the line resolves to nothing
/// among them.
pub proof fn lemma_none_among(items: &Vec<Item>, from: int, line: nat)
    requires
        0 <= from,
        forall|i: int| from <= i < items.len() ==> locate_in_item(#[trigger] &items[i], line) is None,
    ensures
        locate_in_items(items, from, line) is None,
    decreases items.len() - from,
{
    if from < items.len() {
        lemma_none_among(items, from + 1, line);
    }
}

/// A line that lies outside the span of every top-level item of a well-formed tree
/// resolves to nothing.
pub proof fn lemma_outside_every_item_unresolved(tree: &SyntaxTree, line: nat)
    requires
        tree_well_formed(tree),
        forall|i: int| 0 <= i < tree.items.len() ==> !(#[trigger] tree.items[i]).span.covers(line),
    ensures
        locate(tree, line) is None,
{
    assert forall|i: int| 0 <= i < tree.items.len() implies locate_in_item(
        #[trigger] &tree.items[i],
        line,
    ) is None by {
        lemma_outside_item_unresolved(&tree.items[i], line);
    }
    lemma_none_among(&tree.items, 0, line);
}

/// Line 0 resolves to nothing in a well-formed tree: the first line is line 1.
pub proof fn lemma_line_zero_unresolved(tree: &SyntaxTree)
    requires
        tree_well_formed(tree),
    ensures
        locate(tree, 0) is None,
{
    lemma_outside_every_item_unresolved(tree, 0);
}

/// Where the first item that resolves a line is the one at `index`, the line resolves
/// among the items to what it resolves to in that item.
pub proof fn lemma_first_resolving_item(items: &Vec<Item>, from: int, index: int, line: nat)
    requires
        0 <= from <= index < items.len(),
        forall|j: int| from <= j < index ==> locate_in_item(#[trigger] &items[j], line) is None,
        locate_in_item(&items[index], line) is Some,
    ensures
        locate_in_items(items, from, line) == locate_in_item(&items[index], line),
    decreases index - from,
{
    if from < index {
        lemma_first_resolving_item(items, from + 1, index, line);
    }
}

/// A method whose span covers a line that lies outside the span of every other method
/// of its implementation block is what the line resolves to in that block.
pub proof fn lemma_method_resolves(item: &Item, index: int, line: nat)
    requires
        item.node is Implementation,
        0 <= index < item.node->Implementation_0.len(),
        item.node->Implementation_0[index].method is Some,
        item.node->Implementation_0[index].span.covers(line),
        forall|j: int|
            0 <= j < item.node->Implementation_0.len() && j != index && (
            #[trigger] item.node->Implementation_0[j]).method is Some
                ==> !item.node->Implementation_0[j].span.covers(line),
    ensures
        locate_in_item(item, line) == Some(
            FunctionLike {
                kind: FunctionKind::Method,
                definition: &item.node->Implementation_0[index].method->0,
                span: item.node->Implementation_0[index].span,
            },
        ),
{
    lemma_method_resolves_from(&item.node->Implementation_0, 0, index, line);
}

/// The same, for the methods from index `from` on.
pub proof fn lemma_method_resolves_from(items: &Vec<ImplItem>, from: int, index: int, line: nat)
    requires
        0 <= from <= index < items.len(),
        items[index].method is Some,
        items[index].span.covers(line),
        forall|j: int|
            from <= j < index && (#[trigger] items[j]).method is Some ==> !items[j].span.covers(
                line,
            ),
    ensures
        locate_in_implementation(items, from, line) == Some(
            FunctionLike {
                kind: FunctionKind::Method,
                definition: &items[index].method->0,
                span: items[index].span,
            },
        ),
    decreases index - from,
{
    if from < index {
        lemma_method_resolves_from(items, from + 1, index, line);
    }
}

/// A line that no method of an implementation block covers resolves to nothing in the
/// block, whatever else of the block covers it.
pub proof fn lemma_between_methods_unresolved(item: &Item, line: nat)
    requires
        item.node is Implementation,
        forall|j: int|
            0 <= j < item.node->Implementation_0.len() && (
            #[trigger] item.node->Implementation_0[j]).method is Some
                ==> !item.node->Implementation_0[j].span.covers(line),
    ensures
        locate_in_item(item, line) is None,
{
    lemma_implementation_result(&item.node->Implementation_0, 0, line);
}

/// A line that a module covers resolves in the module to what it resolves to in the
/// first of the module's items that resolves it.
pub proof fn lemma_module_resolves(module: &Item, index: int, line: nat)
    requires
        module.node matches Node::Module(Some(items)) && 0 <= index < items.len() && locate_in_item(
            &items[index],
            line,
        ) is Some && forall|j: int|
            0 <= j < index ==> locate_in_item(#[trigger] &items[j], line) is None,
        module.span.covers(line),
    ensures
        locate_in_item(module, line) == locate_in_item(
            &module.node->Module_0->0[index],
            line,
        ),
{
    lemma_first_resolving_item(&module.node->Module_0->0, 0, index, line);
}

/// A module that does not cover a line hides what is in it: the line resolves to
/// nothing in the module.
pub proof fn lemma_module_not_entered(module: &Item, line: nat)
    requires
        module.node is Module,
        !module.span.covers(line),
    ensures
        locate_in_item(module, line) is None,
{
}

/// A free function three modules deep is what a line resolves to where the three
/// modules and the function cover the line, and the line resolves in none of the items
/// that stand before them in their modules.
pub proof fn lemma_three_modules_deep(outer: &Item, i: int, j: int, k: int, line: nat)
    requires
        outer.span.covers(line),
        outer.node matches Node::Module(Some(first)) && 0 <= i < first.len() && first[i].span.covers(
            line,
        ) && (forall|n: int| 0 <= n < i ==> locate_in_item(#[trigger] &first[n], line) is None) && (
        first[i].node matches Node::Module(Some(second)) && 0 <= j < second.len()
            && second[j].span.covers(line) && (forall|n: int|
            0 <= n < j ==> locate_in_item(#[trigger] &second[n], line) is None) && (
        second[j].node matches Node::Module(Some(third)) && 0 <= k < third.len()
            && third[k].span.covers(line) && third[k].node is Function && (forall|n: int|
            0 <= n < k ==> locate_in_item(#[trigger] &third[n], line) is None))),
    ensures
        locate_in_item(outer, line) == Some(
            FunctionLike {
                kind: FunctionKind::Free,
                definition: &outer.node->Module_0->0[i].node->Module_0->0[j].node->Module_0->0[k].node->Function_0,
                span: outer.node->Module_0->0[i].node->Module_0->0[j].node->Module_0->0[k].span,
            },
        ),
{
    let middle = &outer.node->Module_0->0[i];
    let inner = &middle.node->Module_0->0[j];
    lemma_module_resolves(inner, k, line);
    lemma_module_resolves(middle, j, line);
    lemma_module_resolves(outer, i, line);
}

} // verus!
