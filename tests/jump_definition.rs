use slice_server::jump_definition::{
    get_definition_span, Declaration, DocComment, FileTree, Link, MessageComponent, Position,
    SymbolRef, ThrowsTag, TypeDefinition, TypeRef,
};
use slice_server::location::{FileSpan, Location, Span};

fn sp(l1: u64, c1: u64, l2: u64, c2: u64) -> Span {
    Span { start: Location { line: l1, column: c1 }, end: Location { line: l2, column: c2 } }
}

fn fsp(l1: u64, c1: u64, l2: u64, c2: u64) -> FileSpan {
    FileSpan { file: "/ws/a.slice".to_string(), span: sp(l1, c1, l2, c2) }
}

fn pos(line: u32, character: u32) -> Position {
    Position { line, character }
}

/// typealias Length = int32       (line 1, `Length` at columns 11..16)
/// struct S {                     (line 3, `S` at column 8)
///     count: Length              (line 4, `Length` at columns 12..17)
/// }
fn alias_file() -> FileTree {
    FileTree {
        path: "/ws/a.slice".to_string(),
        declarations: vec![
            Declaration::TypeAlias {
                comment: None,
                type_refs: vec![TypeRef { span: sp(1, 20, 1, 24), definition: TypeDefinition::Primitive }],
            },
            Declaration::Struct { comment: None },
            Declaration::Field {
                comment: None,
                type_refs: vec![TypeRef {
                    span: sp(4, 12, 4, 17),
                    definition: TypeDefinition::TypeAlias(fsp(1, 11, 1, 16)),
                }],
            },
        ],
    }
}

#[test]
fn type_alias_reference_resolves_to_alias() {
    let file = alias_file();
    let found = get_definition_span(&file, pos(3, 13)).unwrap();
    assert_eq!(found.file, "/ws/a.slice");
    assert_eq!(found.span, sp(1, 11, 1, 16));
}

#[test]
fn primitive_reference_resolves_to_nothing() {
    let file = alias_file();
    assert!(get_definition_span(&file, pos(0, 21)).is_none());
}

#[test]
fn resolution_is_repeatable() {
    let file = alias_file();
    let a = get_definition_span(&file, pos(3, 11));
    let b = get_definition_span(&file, pos(3, 11));
    assert_eq!(a.unwrap().span, b.unwrap().span);
}

#[test]
fn position_outside_every_span_resolves_to_nothing() {
    let file = alias_file();
    assert!(get_definition_span(&file, pos(9, 0)).is_none());
    assert!(get_definition_span(&file, pos(3, 9)).is_none());
}

#[test]
fn reference_ends_are_inclusive() {
    let file = alias_file();
    assert!(get_definition_span(&file, pos(3, 11)).is_some());
    assert!(get_definition_span(&file, pos(3, 16)).is_some());
    assert!(get_definition_span(&file, pos(3, 17)).is_none());
}

fn link(span: Span, target: Option<FileSpan>) -> MessageComponent {
    MessageComponent::Link(Link { span, target })
}

#[test]
fn comment_link_resolves_and_unresolved_link_does_not() {
    let comment = DocComment {
        overview: Some(vec![
            MessageComponent::Text("see ".to_string()),
            link(sp(1, 9, 1, 12), None),
            link(sp(1, 14, 1, 18), Some(fsp(10, 8, 10, 12))),
        ]),
        returns: vec![],
        params: vec![],
        see: vec![],
        throws: vec![],
    };
    let file = FileTree {
        path: "/ws/a.slice".to_string(),
        declarations: vec![Declaration::Struct { comment: Some(comment) }],
    };
    assert!(get_definition_span(&file, pos(0, 9)).is_none());
    assert_eq!(get_definition_span(&file, pos(0, 14)).unwrap().span, sp(10, 8, 10, 12));
}

#[test]
fn comment_tags_are_checked() {
    let comment = DocComment {
        overview: None,
        returns: vec![vec![link(sp(2, 1, 2, 3), Some(fsp(20, 1, 20, 2)))]],
        params: vec![vec![link(sp(3, 1, 3, 3), Some(fsp(30, 1, 30, 2)))]],
        see: vec![Link { span: sp(4, 1, 4, 3), target: Some(fsp(40, 1, 40, 2)) }],
        throws: vec![ThrowsTag {
            message: vec![link(sp(5, 1, 5, 3), Some(fsp(50, 1, 50, 2)))],
            thrown: Link { span: sp(6, 1, 6, 3), target: Some(fsp(60, 1, 60, 2)) },
        }],
    };
    let file = FileTree {
        path: "/ws/a.slice".to_string(),
        declarations: vec![Declaration::Operation { comment: Some(comment), exception_specification: vec![] }],
    };
    for (line, target) in [(1u32, 20u64), (2, 30), (3, 40), (4, 50), (5, 60)] {
        assert_eq!(get_definition_span(&file, pos(line, 1)).unwrap().span.start.line, target);
    }
}

#[test]
fn supertype_references_resolve() {
    let file = FileTree {
        path: "/ws/a.slice".to_string(),
        declarations: vec![
            Declaration::Class {
                comment: None,
                base: Some(SymbolRef { span: sp(1, 12, 1, 15), target: fsp(30, 7, 30, 10) }),
            },
            Declaration::Interface {
                comment: None,
                bases: vec![
                    SymbolRef { span: sp(2, 14, 2, 15), target: fsp(31, 11, 31, 12) },
                    SymbolRef { span: sp(2, 18, 2, 19), target: fsp(32, 11, 32, 12) },
                ],
            },
            Declaration::Operation {
                comment: None,
                exception_specification: vec![SymbolRef { span: sp(3, 20, 3, 24), target: fsp(33, 11, 33, 15) }],
            },
        ],
    };
    assert_eq!(get_definition_span(&file, pos(0, 12)).unwrap().span.start.line, 30);
    assert_eq!(get_definition_span(&file, pos(1, 18)).unwrap().span.start.line, 32);
    assert_eq!(get_definition_span(&file, pos(2, 22)).unwrap().span.start.line, 33);
}

#[test]
fn first_match_wins() {
    let file = FileTree {
        path: "/ws/a.slice".to_string(),
        declarations: vec![
            Declaration::Parameter {
                type_refs: vec![
                    TypeRef { span: sp(1, 1, 1, 30), definition: TypeDefinition::Sequence },
                    TypeRef { span: sp(1, 10, 1, 15), definition: TypeDefinition::Struct(fsp(7, 1, 7, 2)) },
                ],
            },
            Declaration::Field {
                comment: None,
                type_refs: vec![TypeRef { span: sp(1, 10, 1, 15), definition: TypeDefinition::Enum(fsp(8, 1, 8, 2)) }],
            },
        ],
    };
    assert_eq!(get_definition_span(&file, pos(0, 11)).unwrap().span.start.line, 7);
}
