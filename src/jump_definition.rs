//! Resolution of a cursor position to the definition that the text under it names.
//!
//! A compiled file is described by its declarations in depth-first pre-order. Each declaration
//! carries the references that the resolver looks at: the links of its doc comment, its supertype
//! references and the type references of its signature. The first reference that contains the
//! cursor and resolves to an entity decides the result.

use vstd::prelude::*;
use crate::location::{FileSpan, Location, Span, within};

verus! {

/// A cross-reference; `target` is the identifier span of the entity it resolves to, if any.
#[derive(Debug)]
pub struct Link {
    pub span: Span,
    pub target: Option<FileSpan>,
}

/// A piece of a doc comment's message.
#[derive(Debug)]
pub enum MessageComponent {
    Text(String),
    Link(Link),
}

/// A `throws` tag: its description and the reference to the thrown exception.
#[derive(Debug)]
pub struct ThrowsTag {
    pub message: Vec<MessageComponent>,
    pub thrown: Link,
}

/// The doc comment attached to a declaration.
#[derive(Debug)]
pub struct DocComment {
    pub overview: Option<Vec<MessageComponent>>,
    pub returns: Vec<Vec<MessageComponent>>,
    pub params: Vec<Vec<MessageComponent>>,
    pub see: Vec<Link>,
    pub throws: Vec<ThrowsTag>,
}

/// A resolved reference to a supertype or to a thrown exception.
#[derive(Debug)]
pub struct SymbolRef {
    pub span: Span,
    pub target: FileSpan,
}

/// What a type reference stands for; named types carry their identifier span.
#[derive(Debug)]
pub enum TypeDefinition {
    Unresolved,
    Struct(FileSpan),
    Class(FileSpan),
    Interface(FileSpan),
    Enum(FileSpan),
    CustomType(FileSpan),
    TypeAlias(FileSpan),
    Primitive,
    Sequence,
    Dictionary,
    ResultType,
}

/// A use of a type in a signature.
#[derive(Debug)]
pub struct TypeRef {
    pub span: Span,
    pub definition: TypeDefinition,
}

/// A declaration of a compiled file with the references it holds. `type_refs` lists the type
/// references of its signature in visiting order, nested ones after the one that holds them.
#[derive(Debug)]
pub enum Declaration {
    Struct { comment: Option<DocComment> },
    Class { comment: Option<DocComment>, base: Option<SymbolRef> },
    Exception { comment: Option<DocComment>, base: Option<SymbolRef> },
    Interface { comment: Option<DocComment>, bases: Vec<SymbolRef> },
    Enum { comment: Option<DocComment> },
    Enumerator { comment: Option<DocComment> },
    Operation { comment: Option<DocComment>, exception_specification: Vec<SymbolRef> },
    CustomType { comment: Option<DocComment> },
    TypeAlias { comment: Option<DocComment>, type_refs: Vec<TypeRef> },
    Field { comment: Option<DocComment>, type_refs: Vec<TypeRef> },
    Parameter { type_refs: Vec<TypeRef> },
}

/// One compiled file: its path and its declarations in depth-first pre-order.
#[derive(Debug)]
pub struct FileTree {
    pub path: String,
    pub declarations: Vec<Declaration>,
}

/// A cursor position as an editor sends it; both numbers count from 0.
#[derive(Clone, Copy, Debug, PartialEq, Eq, Structural)]
pub struct Position {
    pub line: u32,
    pub character: u32,
}

/// The first entry of `s` that holds a span.
pub open spec fn first_some(s: Seq<Option<FileSpan>>) -> Option<FileSpan>
    decreases s.len(),
{
    if s.len() == 0 {
        None
    } else if s[0] is Some {
        s[0]
    } else {
        first_some(s.drop_first())
    }
}

/// `a` if it holds a span, else `b`.
pub open spec fn or_else(a: Option<FileSpan>, b: Option<FileSpan>) -> Option<FileSpan> {
    if a is Some {
        a
    } else {
        b
    }
}

pub open spec fn link_match(l: Link, loc: Location) -> Option<FileSpan> {
    if l.target is Some && within(loc, l.span) {
        l.target
    } else {
        None
    }
}

pub open spec fn component_match(c: MessageComponent, loc: Location) -> Option<FileSpan> {
    match c {
        MessageComponent::Text(_) => None,
        MessageComponent::Link(l) => link_match(l, loc),
    }
}

pub open spec fn message_match(m: Seq<MessageComponent>, loc: Location) -> Option<FileSpan> {
    first_some(m.map_values(|c: MessageComponent| component_match(c, loc)))
}

pub open spec fn messages_match(ms: Seq<Vec<MessageComponent>>, loc: Location) -> Option<FileSpan> {
    first_some(ms.map_values(|m: Vec<MessageComponent>| message_match(m@, loc)))
}

pub open spec fn links_match(ls: Seq<Link>, loc: Location) -> Option<FileSpan> {
    first_some(ls.map_values(|l: Link| link_match(l, loc)))
}

pub open spec fn throws_match(t: ThrowsTag, loc: Location) -> Option<FileSpan> {
    or_else(message_match(t.message@, loc), link_match(t.thrown, loc))
}

/// The first link of a doc comment that contains `loc`: overview, returns, params, see, throws.
pub open spec fn comment_match(c: DocComment, loc: Location) -> Option<FileSpan> {
    let overview = match c.overview {
        Some(m) => message_match(m@, loc),
        None => None,
    };
    or_else(
        overview,
        or_else(
            messages_match(c.returns@, loc),
            or_else(
                messages_match(c.params@, loc),
                or_else(
                    links_match(c.see@, loc),
                    first_some(c.throws@.map_values(|t: ThrowsTag| throws_match(t, loc))),
                ),
            ),
        ),
    )
}

pub open spec fn opt_comment_match(c: Option<DocComment>, loc: Location) -> Option<FileSpan> {
    match c {
        Some(c) => comment_match(c, loc),
        None => None,
    }
}

pub open spec fn symbol_match(r: SymbolRef, loc: Location) -> Option<FileSpan> {
    if within(loc, r.span) {
        Some(r.target)
    } else {
        None
    }
}

pub open spec fn symbols_match(rs: Seq<SymbolRef>, loc: Location) -> Option<FileSpan> {
    first_some(rs.map_values(|r: SymbolRef| symbol_match(r, loc)))
}

/// The identifier span of a named type; primitive, collection and unresolved types have none.
pub open spec fn named_type_span(d: TypeDefinition) -> Option<FileSpan> {
    match d {
        TypeDefinition::Struct(s) => Some(s),
        TypeDefinition::Class(s) => Some(s),
        TypeDefinition::Interface(s) => Some(s),
        TypeDefinition::Enum(s) => Some(s),
        TypeDefinition::CustomType(s) => Some(s),
        TypeDefinition::TypeAlias(s) => Some(s),
        _ => None,
    }
}

pub open spec fn type_ref_match(t: TypeRef, loc: Location) -> Option<FileSpan> {
    if within(loc, t.span) {
        named_type_span(t.definition)
    } else {
        None
    }
}

pub open spec fn type_refs_match(ts: Seq<TypeRef>, loc: Location) -> Option<FileSpan> {
    first_some(ts.map_values(|t: TypeRef| type_ref_match(t, loc)))
}

/// The first reference of a declaration that contains `loc`: its doc comment first, then its
/// supertype references, then the type references of its signature.
pub open spec fn declaration_match(d: Declaration, loc: Location) -> Option<FileSpan> {
    match d {
        Declaration::Struct { comment } => opt_comment_match(comment, loc),
        Declaration::Class { comment, base } => or_else(
            opt_comment_match(comment, loc),
            match base {
                Some(b) => symbol_match(b, loc),
                None => None,
            },
        ),
        Declaration::Exception { comment, base } => or_else(
            opt_comment_match(comment, loc),
            match base {
                Some(b) => symbol_match(b, loc),
                None => None,
            },
        ),
        Declaration::Interface { comment, bases } => or_else(
            opt_comment_match(comment, loc),
            symbols_match(bases@, loc),
        ),
        Declaration::Enum { comment } => opt_comment_match(comment, loc),
        Declaration::Enumerator { comment } => opt_comment_match(comment, loc),
        Declaration::Operation { comment, exception_specification } => or_else(
            opt_comment_match(comment, loc),
            symbols_match(exception_specification@, loc),
        ),
        Declaration::CustomType { comment } => opt_comment_match(comment, loc),
        Declaration::TypeAlias { comment, type_refs } => or_else(
            opt_comment_match(comment, loc),
            type_refs_match(type_refs@, loc),
        ),
        Declaration::Field { comment, type_refs } => or_else(
            opt_comment_match(comment, loc),
            type_refs_match(type_refs@, loc),
        ),
        Declaration::Parameter { type_refs } => type_refs_match(type_refs@, loc),
    }
}

/// The span of the definition named at `loc` in a file, if any.
pub open spec fn file_match(decls: Seq<Declaration>, loc: Location) -> Option<FileSpan> {
    first_some(decls.map_values(|d: Declaration| declaration_match(d, loc)))
}

/// The 1-based location of an editor position.
pub open spec fn location_of(p: Position) -> Location {
    Location { line: (p.line + 1) as u64, column: (p.character + 1) as u64 }
}

/// When the first `i` entries of `s` hold no span, the first one that does is at `i` or later.
proof fn lemma_first_some_at(s: Seq<Option<FileSpan>>, i: int)
    requires
        0 <= i <= s.len(),
        forall|j: int| 0 <= j < i ==> s[j] is None,
    ensures
        i == s.len() ==> first_some(s) is None,
        i < s.len() && s[i] is Some ==> first_some(s) == s[i],
    decreases i,
{
    if i > 0 {
        lemma_first_some_at(s.drop_first(), i - 1);
    }
}

/// No link of a message contains `loc`.
pub open spec fn message_outside(m: Seq<MessageComponent>, loc: Location) -> bool {
    forall|i: int|
        0 <= i < m.len() ==> (#[trigger] m[i] matches MessageComponent::Link(l) ==> !within(
            loc,
            l.span,
        ))
}

/// No reference of a doc comment contains `loc`.
pub open spec fn comment_outside(c: DocComment, loc: Location) -> bool {
    &&& (c.overview matches Some(m) ==> message_outside(m@, loc))
    &&& forall|i: int| 0 <= i < c.returns@.len() ==> message_outside(#[trigger] c.returns@[i]@, loc)
    &&& forall|i: int| 0 <= i < c.params@.len() ==> message_outside(#[trigger] c.params@[i]@, loc)
    &&& forall|i: int| 0 <= i < c.see@.len() ==> !within(loc, #[trigger] c.see@[i].span)
    &&& forall|i: int|
        0 <= i < c.throws@.len() ==> message_outside(#[trigger] c.throws@[i].message@, loc)
            && !within(loc, c.throws@[i].thrown.span)
}

pub open spec fn opt_comment_outside(c: Option<DocComment>, loc: Location) -> bool {
    c matches Some(c) ==> comment_outside(c, loc)
}

pub open spec fn symbols_outside(rs: Seq<SymbolRef>, loc: Location) -> bool {
    forall|i: int| 0 <= i < rs.len() ==> !within(loc, #[trigger] rs[i].span)
}

pub open spec fn type_refs_outside(ts: Seq<TypeRef>, loc: Location) -> bool {
    forall|i: int| 0 <= i < ts.len() ==> !within(loc, #[trigger] ts[i].span)
}

/// No span that the resolver checks in a declaration contains `loc`.
pub open spec fn declaration_outside(d: Declaration, loc: Location) -> bool {
    match d {
        Declaration::Struct { comment } => opt_comment_outside(comment, loc),
        Declaration::Class { comment, base } => opt_comment_outside(comment, loc) && (base matches Some(
            b,
        ) ==> !within(loc, b.span)),
        Declaration::Exception { comment, base } => opt_comment_outside(comment, loc) && (
        base matches Some(b) ==> !within(loc, b.span)),
        Declaration::Interface { comment, bases } => opt_comment_outside(comment, loc)
            && symbols_outside(bases@, loc),
        Declaration::Enum { comment } => opt_comment_outside(comment, loc),
        Declaration::Enumerator { comment } => opt_comment_outside(comment, loc),
        Declaration::Operation { comment, exception_specification } => opt_comment_outside(
            comment,
            loc,
        ) && symbols_outside(exception_specification@, loc),
        Declaration::CustomType { comment } => opt_comment_outside(comment, loc),
        Declaration::TypeAlias { comment, type_refs } => opt_comment_outside(comment, loc)
            && type_refs_outside(type_refs@, loc),
        Declaration::Field { comment, type_refs } => opt_comment_outside(comment, loc)
            && type_refs_outside(type_refs@, loc),
        Declaration::Parameter { type_refs } => type_refs_outside(type_refs@, loc),
    }
}

proof fn lemma_message_outside(m: Seq<MessageComponent>, loc: Location)
    requires
        message_outside(m, loc),
    ensures
        message_match(m, loc) is None,
{
    let s = m.map_values(|c: MessageComponent| component_match(c, loc));
    assert forall|j: int| 0 <= j < s.len() implies s[j] is None by {
        assert(m[j] matches MessageComponent::Link(l) ==> !within(loc, l.span));
    }
    lemma_first_some_at(s, s.len() as int);
}

proof fn lemma_messages_outside(ms: Seq<Vec<MessageComponent>>, loc: Location)
    requires
        forall|i: int| 0 <= i < ms.len() ==> message_outside(#[trigger] ms[i]@, loc),
    ensures
        messages_match(ms, loc) is None,
{
    let s = ms.map_values(|m: Vec<MessageComponent>| message_match(m@, loc));
    assert forall|j: int| 0 <= j < s.len() implies s[j] is None by {
        lemma_message_outside(ms[j]@, loc);
    }
    lemma_first_some_at(s, s.len() as int);
}

proof fn lemma_comment_outside(c: Option<DocComment>, loc: Location)
    requires
        opt_comment_outside(c, loc),
    ensures
        opt_comment_match(c, loc) is None,
{
    if let Some(c) = c {
        if let Some(m) = c.overview {
            lemma_message_outside(m@, loc);
        }
        lemma_messages_outside(c.returns@, loc);
        lemma_messages_outside(c.params@, loc);
        let see = c.see@.map_values(|l: Link| link_match(l, loc));
        assert forall|j: int| 0 <= j < see.len() implies see[j] is None by {
            assert(!within(loc, c.see@[j].span));
        }
        lemma_first_some_at(see, see.len() as int);
        let throws = c.throws@.map_values(|t: ThrowsTag| throws_match(t, loc));
        assert forall|j: int| 0 <= j < throws.len() implies throws[j] is None by {
            lemma_message_outside(c.throws@[j].message@, loc);
        }
        lemma_first_some_at(throws, throws.len() as int);
    }
}

proof fn lemma_symbols_outside(rs: Seq<SymbolRef>, loc: Location)
    requires
        symbols_outside(rs, loc),
    ensures
        symbols_match(rs, loc) is None,
{
    let s = rs.map_values(|r: SymbolRef| symbol_match(r, loc));
    assert forall|j: int| 0 <= j < s.len() implies s[j] is None by {
        assert(!within(loc, rs[j].span));
    }
    lemma_first_some_at(s, s.len() as int);
}

proof fn lemma_type_refs_outside(ts: Seq<TypeRef>, loc: Location)
    requires
        type_refs_outside(ts, loc),
    ensures
        type_refs_match(ts, loc) is None,
{
    let s = ts.map_values(|t: TypeRef| type_ref_match(t, loc));
    assert forall|j: int| 0 <= j < s.len() implies s[j] is None by {
        assert(!within(loc, ts[j].span));
    }
    lemma_first_some_at(s, s.len() as int);
}

proof fn lemma_declaration_outside(d: Declaration, loc: Location)
    requires
        declaration_outside(d, loc),
    ensures
        declaration_match(d, loc) is None,
{
    match d {
        Declaration::Struct { comment } => lemma_comment_outside(comment, loc),
        Declaration::Class { comment, base } => lemma_comment_outside(comment, loc),
        Declaration::Exception { comment, base } => lemma_comment_outside(comment, loc),
        Declaration::Interface { comment, bases } => {
            lemma_comment_outside(comment, loc);
            lemma_symbols_outside(bases@, loc);
        },
        Declaration::Enum { comment } => lemma_comment_outside(comment, loc),
        Declaration::Enumerator { comment } => lemma_comment_outside(comment, loc),
        Declaration::Operation { comment, exception_specification } => {
            lemma_comment_outside(comment, loc);
            lemma_symbols_outside(exception_specification@, loc);
        },
        Declaration::CustomType { comment } => lemma_comment_outside(comment, loc),
        Declaration::TypeAlias { comment, type_refs } => {
            lemma_comment_outside(comment, loc);
            lemma_type_refs_outside(type_refs@, loc);
        },
        Declaration::Field { comment, type_refs } => {
            lemma_comment_outside(comment, loc);
            lemma_type_refs_outside(type_refs@, loc);
        },
        Declaration::Parameter { type_refs } => lemma_type_refs_outside(type_refs@, loc),
    }
}

/// Resolution is a function of the file and the position: the same pair always gives the same
/// result. And a position that lies outside every span the resolver checks names nothing.
pub proof fn lemma_resolution(file: FileTree, other: FileTree, position: Position)
    requires
        other.declarations@ == file.declarations@,
    ensures
        file_match(file.declarations@, location_of(position)) == file_match(
            other.declarations@,
            location_of(position),
        ),
        (forall|i: int|
            0 <= i < file.declarations@.len() ==> declaration_outside(
                #[trigger] file.declarations@[i],
                location_of(position),
            )) ==> file_match(file.declarations@, location_of(position)) is None,
{
    let loc = location_of(position);
    let decls = file.declarations@;
    if forall|i: int| 0 <= i < decls.len() ==> declaration_outside(#[trigger] decls[i], loc) {
        let s = decls.map_values(|d: Declaration| declaration_match(d, loc));
        assert forall|j: int| 0 <= j < s.len() implies s[j] is None by {
            lemma_declaration_outside(decls[j], loc);
        }
        lemma_first_some_at(s, s.len() as int);
    }
}

/// Walks the declarations of one file looking for the reference under `search_location`.
pub struct JumpVisitor {
    pub search_location: Location,
}

impl JumpVisitor {
    pub fn new(search_location: Location) -> (r: Self)
        ensures
            r.search_location == search_location,
    {
        JumpVisitor { search_location }
    }

    /// The target of a link whose span contains the search location and that resolves.
    fn check_and_set_span(&self, link: &Link) -> (r: Option<FileSpan>)
        ensures
            r == link_match(*link, self.search_location),
    {
        match &link.target {
            Some(target) => {
                if self.search_location.is_within(&link.span) {
                    Some(target.duplicate())
                } else {
                    None
                }
            },
            None => None,
        }
    }

    fn check_message_links(&self, message: &Vec<MessageComponent>) -> (r: Option<FileSpan>)
        ensures
            r == message_match(message@, self.search_location),
    {
        let ghost loc = self.search_location;
        let ghost s = message@.map_values(|c: MessageComponent| component_match(c, loc));
        let mut i: usize = 0;
        while i < message.len()
            invariant
                i <= message.len(),
                s == message@.map_values(|c: MessageComponent| component_match(c, loc)),
                loc == self.search_location,
                forall|j: int| 0 <= j < i ==> s[j] is None,
            decreases message.len() - i,
        {
            if let MessageComponent::Link(l) = &message[i] {
                let r = self.check_and_set_span(l);
                if r.is_some() {
                    proof {
                        lemma_first_some_at(s, i as int);
                    }
                    return r;
                }
            }
            i += 1;
        }
        proof {
            lemma_first_some_at(s, i as int);
        }
        None
    }

    fn check_message_list(&self, messages: &Vec<Vec<MessageComponent>>) -> (r: Option<FileSpan>)
        ensures
            r == messages_match(messages@, self.search_location),
    {
        let ghost loc = self.search_location;
        let ghost s = messages@.map_values(|m: Vec<MessageComponent>| message_match(m@, loc));
        let mut i: usize = 0;
        while i < messages.len()
            invariant
                i <= messages.len(),
                s == messages@.map_values(|m: Vec<MessageComponent>| message_match(m@, loc)),
                loc == self.search_location,
                forall|j: int| 0 <= j < i ==> s[j] is None,
            decreases messages.len() - i,
        {
            let r = self.check_message_links(&messages[i]);
            if r.is_some() {
                proof {
                    lemma_first_some_at(s, i as int);
                }
                return r;
            }
            i += 1;
        }
        proof {
            lemma_first_some_at(s, i as int);
        }
        None
    }

    fn check_links(&self, links: &Vec<Link>) -> (r: Option<FileSpan>)
        ensures
            r == links_match(links@, self.search_location),
    {
        let ghost loc = self.search_location;
        let ghost s = links@.map_values(|l: Link| link_match(l, loc));
        let mut i: usize = 0;
        while i < links.len()
            invariant
                i <= links.len(),
                s == links@.map_values(|l: Link| link_match(l, loc)),
                loc == self.search_location,
                forall|j: int| 0 <= j < i ==> s[j] is None,
            decreases links.len() - i,
        {
            let r = self.check_and_set_span(&links[i]);
            if r.is_some() {
                proof {
                    lemma_first_some_at(s, i as int);
                }
                return r;
            }
            i += 1;
        }
        proof {
            lemma_first_some_at(s, i as int);
        }
        None
    }

    fn check_throws(&self, throws: &Vec<ThrowsTag>) -> (r: Option<FileSpan>)
        ensures
            r == first_some(
                throws@.map_values(|t: ThrowsTag| throws_match(t, self.search_location)),
            ),
    {
        let ghost loc = self.search_location;
        let ghost s = throws@.map_values(|t: ThrowsTag| throws_match(t, loc));
        let mut i: usize = 0;
        while i < throws.len()
            invariant
                i <= throws.len(),
                s == throws@.map_values(|t: ThrowsTag| throws_match(t, loc)),
                loc == self.search_location,
                forall|j: int| 0 <= j < i ==> s[j] is None,
            decreases throws.len() - i,
        {
            let tag = &throws[i];
            let mut r = self.check_message_links(&tag.message);
            if r.is_none() {
                r = self.check_and_set_span(&tag.thrown);
            }
            if r.is_some() {
                proof {
                    lemma_first_some_at(s, i as int);
                }
                return r;
            }
            i += 1;
        }
        proof {
            lemma_first_some_at(s, i as int);
        }
        None
    }

    /// The first link of a doc comment that contains the search location and resolves.
    fn check_comment(&self, comment: &Option<DocComment>) -> (r: Option<FileSpan>)
        ensures
            r == opt_comment_match(*comment, self.search_location),
    {
        let comment = match comment {
            Some(c) => c,
            None => {
                return None;
            },
        };
        if let Some(overview) = &comment.overview {
            let r = self.check_message_links(overview);
            if r.is_some() {
                return r;
            }
        }
        let r = self.check_message_list(&comment.returns);
        if r.is_some() {
            return r;
        }
        let r = self.check_message_list(&comment.params);
        if r.is_some() {
            return r;
        }
        let r = self.check_links(&comment.see);
        if r.is_some() {
            return r;
        }
        self.check_throws(&comment.throws)
    }

    fn check_symbol(&self, symbol: &SymbolRef) -> (r: Option<FileSpan>)
        ensures
            r == symbol_match(*symbol, self.search_location),
    {
        if self.search_location.is_within(&symbol.span) {
            Some(symbol.target.duplicate())
        } else {
            None
        }
    }

    fn check_symbols(&self, symbols: &Vec<SymbolRef>) -> (r: Option<FileSpan>)
        ensures
            r == symbols_match(symbols@, self.search_location),
    {
        let ghost loc = self.search_location;
        let ghost s = symbols@.map_values(|r: SymbolRef| symbol_match(r, loc));
        let mut i: usize = 0;
        while i < symbols.len()
            invariant
                i <= symbols.len(),
                s == symbols@.map_values(|r: SymbolRef| symbol_match(r, loc)),
                loc == self.search_location,
                forall|j: int| 0 <= j < i ==> s[j] is None,
            decreases symbols.len() - i,
        {
            let r = self.check_symbol(&symbols[i]);
            if r.is_some() {
                proof {
                    lemma_first_some_at(s, i as int);
                }
                return r;
            }
            i += 1;
        }
        proof {
            lemma_first_some_at(s, i as int);
        }
        None
    }

    /// The identifier span of the named type that a type reference under the search location
    /// stands for.
    fn visit_type_ref(&self, type_ref: &TypeRef) -> (r: Option<FileSpan>)
        ensures
            r == type_ref_match(*type_ref, self.search_location),
    {
        if !self.search_location.is_within(&type_ref.span) {
            return None;
        }
        match &type_ref.definition {
            TypeDefinition::Struct(s) => Some(s.duplicate()),
            TypeDefinition::Class(s) => Some(s.duplicate()),
            TypeDefinition::Interface(s) => Some(s.duplicate()),
            TypeDefinition::Enum(s) => Some(s.duplicate()),
            TypeDefinition::CustomType(s) => Some(s.duplicate()),
            TypeDefinition::TypeAlias(s) => Some(s.duplicate()),
            _ => None,
        }
    }

    fn visit_type_refs(&self, type_refs: &Vec<TypeRef>) -> (r: Option<FileSpan>)
        ensures
            r == type_refs_match(type_refs@, self.search_location),
    {
        let ghost loc = self.search_location;
        let ghost s = type_refs@.map_values(|t: TypeRef| type_ref_match(t, loc));
        let mut i: usize = 0;
        while i < type_refs.len()
            invariant
                i <= type_refs.len(),
                s == type_refs@.map_values(|t: TypeRef| type_ref_match(t, loc)),
                loc == self.search_location,
                forall|j: int| 0 <= j < i ==> s[j] is None,
            decreases type_refs.len() - i,
        {
            let r = self.visit_type_ref(&type_refs[i]);
            if r.is_some() {
                proof {
                    lemma_first_some_at(s, i as int);
                }
                return r;
            }
            i += 1;
        }
        proof {
            lemma_first_some_at(s, i as int);
        }
        None
    }

    fn check_base(&self, base: &Option<SymbolRef>) -> (r: Option<FileSpan>)
        ensures
            r == (match *base {
                Some(b) => symbol_match(b, self.search_location),
                None => None,
            }),
    {
        match base {
            Some(b) => self.check_symbol(b),
            None => None,
        }
    }

    /// Checks one declaration: one handler for each kind.
    pub fn visit_declaration(&self, declaration: &Declaration) -> (r: Option<FileSpan>)
        ensures
            r == declaration_match(*declaration, self.search_location),
    {
        match declaration {
            Declaration::Struct { comment } => self.check_comment(comment),
            Declaration::Class { comment, base } => {
                let r = self.check_comment(comment);
                if r.is_some() {
                    return r;
                }
                self.check_base(base)
            },
            Declaration::Exception { comment, base } => {
                let r = self.check_comment(comment);
                if r.is_some() {
                    return r;
                }
                self.check_base(base)
            },
            Declaration::Interface { comment, bases } => {
                let r = self.check_comment(comment);
                if r.is_some() {
                    return r;
                }
                self.check_symbols(bases)
            },
            Declaration::Enum { comment } => self.check_comment(comment),
            Declaration::Enumerator { comment } => self.check_comment(comment),
            Declaration::Operation { comment, exception_specification } => {
                let r = self.check_comment(comment);
                if r.is_some() {
                    return r;
                }
                self.check_symbols(exception_specification)
            },
            Declaration::CustomType { comment } => self.check_comment(comment),
            Declaration::TypeAlias { comment, type_refs } => {
                let r = self.check_comment(comment);
                if r.is_some() {
                    return r;
                }
                self.visit_type_refs(type_refs)
            },
            Declaration::Field { comment, type_refs } => {
                let r = self.check_comment(comment);
                if r.is_some() {
                    return r;
                }
                self.visit_type_refs(type_refs)
            },
            Declaration::Parameter { type_refs } => self.visit_type_refs(type_refs),
        }
    }

    /// Walks the declarations in order and stops at the first one that names a definition.
    pub fn visit_file(&self, file: &FileTree) -> (r: Option<FileSpan>)
        ensures
            r == file_match(file.declarations@, self.search_location),
    {
        let ghost loc = self.search_location;
        let ghost s = file.declarations@.map_values(|d: Declaration| declaration_match(d, loc));
        let mut i: usize = 0;
        while i < file.declarations.len()
            invariant
                i <= file.declarations.len(),
                s == file.declarations@.map_values(|d: Declaration| declaration_match(d, loc)),
                loc == self.search_location,
                forall|j: int| 0 <= j < i ==> s[j] is None,
            decreases file.declarations.len() - i,
        {
            let r = self.visit_declaration(&file.declarations[i]);
            if r.is_some() {
                proof {
                    lemma_first_some_at(s, i as int);
                }
                return r;
            }
            i += 1;
        }
        proof {
            lemma_first_some_at(s, i as int);
        }
        None
    }
}

/// The identifier span of the entity named at `position` in `file`, or `None` when the position
/// is over no resolvable reference.
pub fn get_definition_span(file: &FileTree, position: Position) -> (r: Option<FileSpan>)
    ensures
        r == file_match(file.declarations@, location_of(position)),
{
    let location = Location { line: position.line as u64 + 1, column: position.character as u64 + 1 };
    let visitor = JumpVisitor::new(location);
    visitor.visit_file(file)
}

} // verus!
