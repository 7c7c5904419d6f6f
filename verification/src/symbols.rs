//! Core data model: symbol kinds, byte ranges, occurrences and flow
//! declarations of one document snapshot.

use vstd::prelude::*;

verus! {

/// The closed set of symbol kinds of the modeling language.
#[derive(Debug, Clone, Copy, PartialEq, Eq, Structural)]
pub enum SymbolKind {
    Entity,
    Resource,
    Flow,
    Pattern,
    Role,
    Relation,
    Instance,
    Policy,
}

/// Half-open range of byte offsets into one document snapshot.
#[derive(Debug, Clone, Copy, PartialEq, Eq, Structural)]
pub struct ByteRange {
    pub start: usize,
    pub end: usize,
}

impl ByteRange {
    /// A range is well formed when it does not end before it starts.
    pub open spec fn wf(self) -> bool {
        self.start <= self.end
    }

    pub fn contains(&self, offset: usize) -> (r: bool)
        ensures
            r == (self.start <= offset && offset < self.end),
    {
        offset >= self.start && offset < self.end
    }
}

/// One mention of a named symbol in source text, tagged as definition or
/// reference.
#[derive(Debug)]
pub struct Occurrence {
    pub kind: SymbolKind,
    pub name: String,
    pub range: ByteRange,
    pub is_definition: bool,
}

/// Mathematical image of an `Occurrence`: the name as a character sequence.
pub struct OccView {
    pub kind: SymbolKind,
    pub name: Seq<char>,
    pub range: ByteRange,
    pub is_definition: bool,
}

impl View for Occurrence {
    type V = OccView;

    open spec fn view(&self) -> OccView {
        OccView {
            kind: self.kind,
            name: self.name@,
            range: self.range,
            is_definition: self.is_definition,
        }
    }
}

impl Clone for Occurrence {
    fn clone(&self) -> (r: Self)
        ensures
            r == *self,
    {
        Occurrence {
            kind: self.kind,
            name: self.name.clone(),
            range: self.range,
            is_definition: self.is_definition,
        }
    }
}

/// Denormalized view of one flow statement's operands.
#[derive(Debug)]
pub struct FlowDecl {
    pub range: ByteRange,
    pub resource: String,
    pub from_entity: String,
    pub to_entity: String,
    pub quantity: Option<String>,
}

/// Mathematical image of a `FlowDecl`.
pub struct FlowView {
    pub range: ByteRange,
    pub resource: Seq<char>,
    pub from_entity: Seq<char>,
    pub to_entity: Seq<char>,
    pub quantity: Option<Seq<char>>,
}

impl Clone for FlowDecl {
    fn clone(&self) -> (r: Self)
        ensures
            r == *self,
    {
        FlowDecl {
            range: self.range,
            resource: self.resource.clone(),
            from_entity: self.from_entity.clone(),
            to_entity: self.to_entity.clone(),
            quantity: match &self.quantity {
                Some(q) => Some(q.clone()),
                None => None,
            },
        }
    }
}

impl View for FlowDecl {
    type V = FlowView;

    open spec fn view(&self) -> FlowView {
        FlowView {
            range: self.range,
            resource: self.resource@,
            from_entity: self.from_entity@,
            to_entity: self.to_entity@,
            quantity: match self.quantity {
                Some(ref q) => Some(q@),
                None => None,
            },
        }
    }
}

} // verus!
