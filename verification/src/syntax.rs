use vstd::prelude::*;

verus! {

/// The lines that a piece of syntax covers: from `first` to `last`, both included. The
/// first line of a file is line 1.
#[derive(Clone, Copy, Debug)]
pub struct Span {
    start: usize,
    end: usize,
}

impl Span {
    #[verifier::type_invariant]
    spec fn ordered(self) -> bool {
        1 <= self.start <= self.end
    }

    /// The first line of the span.
    pub closed spec fn first(self) -> nat {
        self.start as nat
    }

    /// The last line of the span.
    pub closed spec fn last(self) -> nat {
        self.end as nat
    }

    /// Whether the span starts at line 1 or later and does not end before it starts.
    pub open spec fn well_formed(self) -> bool {
        1 <= self.first() <= self.last()
    }

    /// Whether `line` lies in the span.
    pub open spec fn covers(self, line: nat) -> bool {
        self.first() <= line <= self.last()
    }

    /// Whether every line of `inner` lies in the span.
    pub open spec fn encloses(self, inner: Span) -> bool {
        self.first() <= inner.first() && inner.last() <= self.last()
    }

    /// The span from line `start` to line `end`, where `1 <= start <= end`.
    pub fn new(start: usize, end: usize) -> (span: Option<Span>)
        ensures
            span is Some <==> 1 <= start <= end,
            span is Some ==> span->0.first() == start && span->0.last() == end,
    {
        if 1 <= start && start <= end {
            Some(Span { start, end })
        } else {
            None
        }
    }

    /// The first line of the span.
    pub fn start(&self) -> (line: usize)
        ensures
            line == self.first(),
            self.well_formed(),
    {
        proof {
            use_type_invariant(self);
        }
        self.start
    }

    /// The last line of the span.
    pub fn end(&self) -> (line: usize)
        ensures
            line == self.last(),
            self.well_formed(),
    {
        proof {
            use_type_invariant(self);
        }
        self.end
    }

    /// Decides whether `line` lies in the span.
    pub fn contains(&self, line: usize) -> (hit: bool)
        ensures
            hit == self.covers(line as nat),
    {
        self.start <= line && self.end >= line
    }
}

/// An attribute attached to a definition.
#[derive(Debug)]
pub struct Attribute {
    /// The attribute's name, where its path is a single identifier.
    pub name: Option<String>,
    /// The text, where the attribute has the form `name = "text"`.
    pub value: Option<String>,
}

/// What a function-like construct is called and what is attached to it.
#[derive(Debug)]
pub struct Definition {
    /// The name; empty where the construct has none.
    pub name: String,
    /// The attributes, in source order.
    pub attrs: Vec<Attribute>,
}

/// An item of a block of foreign declarations.
#[derive(Debug)]
pub struct ForeignItem {
    pub span: Span,
    /// The declaration, where the item declares a function.
    pub function: Option<Definition>,
}

/// An item of an implementation block.
#[derive(Debug)]
pub struct ImplItem {
    pub span: Span,
    /// The definition, where the item is a method. Associated constants, types and
    /// macro invocations have none.
    pub method: Option<Definition>,
}

/// What an item is.
#[derive(Debug)]
pub enum Node {
    /// A free function.
    Function(Definition),
    /// A block of foreign declarations.
    ForeignBlock(Vec<ForeignItem>),
    /// An implementation block.
    Implementation(Vec<ImplItem>),
    /// A macro in item position, written `name! { .. }`.
    MacroLegacy(Definition),
    /// A macro defined with the `macro` keyword.
    MacroModern(Definition),
    /// A module, with its items where it has a body.
    Module(Option<Vec<Item>>),
    /// Any other item: a type, a constant, a trait, an import.
    Other,
}

/// An item of a file or of a module.
#[derive(Debug)]
pub struct Item {
    pub span: Span,
    pub node: Node,
}

/// A parsed source file: its items in declaration order.
#[derive(Debug)]
pub struct SyntaxTree {
    pub items: Vec<Item>,
}

/// The kinds of construct that count as a function.
#[derive(Clone, Copy, PartialEq, Eq, Structural, Debug)]
pub enum FunctionKind {
    Free,
    ForeignDecl,
    Method,
    MacroLegacy,
    MacroModern,
}

/// A function-like construct found in a tree.
#[derive(Clone, Copy, Debug)]
pub struct FunctionLike<'a> {
    pub kind: FunctionKind,
    pub definition: &'a Definition,
    pub span: Span,
}

/// Whether the spans of `items` are well formed and lie within `outer`.
pub open spec fn foreign_items_within(items: &Vec<ForeignItem>, outer: Span) -> bool {
    forall|i: int|
        0 <= i < items.len() ==> (#[trigger] items[i]).span.well_formed() && outer.encloses(
            items[i].span,
        )
}

/// Whether the spans of `items` are well formed and lie within `outer`.
pub open spec fn impl_items_within(items: &Vec<ImplItem>, outer: Span) -> bool {
    forall|i: int|
        0 <= i < items.len() ==> (#[trigger] items[i]).span.well_formed() && outer.encloses(
            items[i].span,
        )
}

/// Whether `item` is well formed: its span is, and what it holds is well formed and
/// lies within its span.
pub open spec fn item_well_formed(item: &Item) -> bool
    decreases item,
{
    &&& item.span.well_formed()
    &&& match &item.node {
        Node::ForeignBlock(items) => foreign_items_within(items, item.span),
        Node::Implementation(items) => impl_items_within(items, item.span),
        Node::Module(Some(items)) => forall|i: int|
            0 <= i < items.len() ==> item.span.encloses((#[trigger] items[i]).span)
                && item_well_formed(&items[i]),
        _ => true,
    }
}

/// Whether `tree` is well formed: each of its items is.
pub open spec fn tree_well_formed(tree: &SyntaxTree) -> bool {
    forall|i: int| 0 <= i < tree.items.len() ==> item_well_formed(#[trigger] &tree.items[i])
}

} // verus!
