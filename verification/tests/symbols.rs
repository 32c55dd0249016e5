use ggbc::symbols::{Field, FnAlloc, FnDecl, Space, SymbolAlloc, Type};

fn field(name: &str, ty: Type) -> Field {
    Field { ident: String::from(name), ty }
}

fn struct_abc() -> Field {
    // Leaf sizes 1 (u8), 2 (pointer), 4 (array of four u8).
    field(
        "s",
        Type::Struct {
            fields: vec![
                field("a", Type::U8),
                field("b", Type::Pointer { ty: Box::new(Type::U8) }),
                field("c", Type::Array { ty: Box::new(Type::U8), len: 4 }),
            ],
        },
    )
}

#[test]
fn struct_fields_get_sequential_offsets() {
    let mut alloc = SymbolAlloc::default();
    alloc.alloc_static(&struct_abc());
    let a = alloc.get("s::a");
    assert_eq!(0, a.offset);
    assert_eq!(1, a.size);
    assert!(matches!(a.space, Space::Static));
    let b = alloc.get("s::b");
    assert_eq!(1, b.offset);
    assert_eq!(2, b.size);
    let c = alloc.get("s::c");
    assert_eq!(3, c.offset);
    assert_eq!(4, c.size);
}

#[test]
fn struct_consumes_sum_of_sizes() {
    let mut alloc = SymbolAlloc::default();
    let first = alloc.alloc_stack_field(&struct_abc());
    assert_eq!(0, first);
    // The cursor advanced by 1 + 2 + 4.
    let second = alloc.alloc_stack_field(&field("t", Type::U8));
    assert_eq!(7, second);
}

#[test]
fn union_fields_share_one_offset_and_consume_the_largest() {
    let mut alloc = SymbolAlloc::default();
    let u = field(
        "u",
        Type::Union {
            fields: vec![
                field("a", Type::U8),
                field("b", Type::Pointer { ty: Box::new(Type::U8) }),
                field("c", Type::Array { ty: Box::new(Type::U8), len: 4 }),
            ],
        },
    );
    let first = alloc.alloc_stack_field(&u);
    assert_eq!(0, first);
    assert_eq!(0, alloc.get("u::a").offset);
    assert_eq!(0, alloc.get("u::b").offset);
    assert_eq!(0, alloc.get("u::c").offset);
    // The union contributes its largest member's size to the cursor.
    let second = alloc.alloc_stack_field(&field("t", Type::U8));
    assert_eq!(4, second);
}

#[test]
fn nested_structs_get_dotted_names() {
    let mut alloc = SymbolAlloc::default();
    let outer = field(
        "outer",
        Type::Struct {
            fields: vec![
                field("x", Type::U8),
                field(
                    "inner",
                    Type::Struct { fields: vec![field("y", Type::U8), field("z", Type::U8)] },
                ),
            ],
        },
    );
    alloc.alloc_static(&outer);
    assert_eq!(0, alloc.get("outer::x").offset);
    assert_eq!(1, alloc.get("outer::inner::y").offset);
    assert_eq!(2, alloc.get("outer::inner::z").offset);
}

#[test]
fn spaces_have_independent_cursors() {
    let mut alloc = SymbolAlloc::default();
    alloc.alloc_static(&field("a", Type::U8));
    alloc.alloc_const(&field("b", Type::U8));
    // Each space starts at zero regardless of the other's cursor.
    assert_eq!(0, alloc.get("a").offset);
    assert_eq!(0, alloc.get("b").offset);
    assert!(matches!(alloc.get("a").space, Space::Static));
    assert!(matches!(alloc.get("b").space, Space::Const));
}

#[test]
fn absolute_allocation_uses_the_given_offset() {
    let mut alloc = SymbolAlloc::default();
    alloc.alloc_absolute(&field("io", Type::U8), 0x1234);
    let s = alloc.get("io");
    assert_eq!(0x1234, s.offset);
    assert!(matches!(s.space, Space::Absolute));
}

#[test]
fn clear_stack_resets_cursor_and_symbols() {
    let mut alloc = SymbolAlloc::default();
    let first = alloc.alloc_stack_field(&field("local", Type::U8));
    assert_eq!(0, first);
    assert!(!alloc.is_undefined("local"));
    alloc.clear_stack();
    assert!(alloc.is_undefined("local"));
    let again = alloc.alloc_stack_field(&field("local", Type::U8));
    assert_eq!(0, again);
}

#[test]
fn is_undefined_sees_all_spaces() {
    let mut alloc = SymbolAlloc::default();
    assert!(alloc.is_undefined("a"));
    alloc.alloc_static(&field("a", Type::U8));
    assert!(!alloc.is_undefined("a"));
    alloc.alloc_const(&field("b", Type::U8));
    assert!(!alloc.is_undefined("b"));
    assert!(alloc.is_undefined("c"));
}

#[test]
fn fn_alloc_returns_the_registered_declaration() {
    let mut fns = FnAlloc::default();
    fns.allocate(FnDecl { ident: String::from("main") });
    fns.allocate(FnDecl { ident: String::from("draw") });
    assert_eq!("main", fns.get("main").ident);
    assert_eq!("draw", fns.get("draw").ident);
}

#[test]
fn stack_symbols_shadow_static_ones() {
    // Two identically named leaf paths can arise through differently rooted
    // structs; the stack-space symbol wins the lookup.
    let mut alloc = SymbolAlloc::default();
    alloc.alloc_static(&field(
        "s",
        Type::Struct { fields: vec![field("a", Type::U8), field("b", Type::U8)] },
    ));
    alloc.alloc_stack_field(&field(
        "s",
        Type::Struct { fields: vec![field("pad", Type::U8), field("a", Type::U8)] },
    ));
    let sym = alloc.get("s::a");
    assert!(matches!(sym.space, Space::Stack));
    assert_eq!(1, sym.offset);
    // The static symbol of the same name is still there underneath.
    alloc.clear_stack();
    let sym = alloc.get("s::a");
    assert!(matches!(sym.space, Space::Static));
    assert_eq!(0, sym.offset);
}
