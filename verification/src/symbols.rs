//! Symbol and function allocators.
//!
//! The symbol allocator assigns byte offsets within four independent address
//! spaces (absolute, const, static, stack) to named fields, recursively
//! flattening struct and union types into one symbol per leaf. A struct lays
//! its fields out sequentially; a union overlaps all its fields at the same
//! offset, and its size — what it contributes to an enclosing struct's
//! running cursor — is the size of its largest member. Nested fields get
//! dotted, scope-qualified names (`outer::inner`).
//!
//! The function allocator maps function names to their declarations for
//! call-site resolution; no overloading, so registering a name twice is a
//! contract violation of the lowering pass.

use vstd::prelude::*;
use vstd::string::StrSliceExecFns;
use vstd::string::StringExecFns;

verus! {

/// Memory space a symbol is allocated in.
#[derive(Debug, Clone, Copy, PartialEq, Eq, Structural)]
pub enum Space {
    /// Static memory, compiler-assigned address.
    Static,
    /// Const memory (ROM).
    Const,
    /// Stack memory, relative to the active call frame.
    Stack,
    /// Static memory at a user-fixed address.
    Absolute,
}

/// A declared type, as the layout algorithm sees it.
#[derive(Debug)]
pub enum Type {
    /// Unsigned 8-bit integer; one byte.
    U8,
    /// Signed 8-bit integer; one byte.
    I8,
    /// `len` elements of one type; a single leaf symbol.
    Array { ty: Box<Type>, len: u16 },
    /// Pointer; two bytes.
    Pointer { ty: Box<Type> },
    /// Function reference; two bytes.
    Fn,
    /// Fields laid out sequentially.
    Struct { fields: Vec<Field> },
    /// Fields overlapped at one offset; sized by the largest.
    Union { fields: Vec<Field> },
}

/// A named, typed field to allocate.
#[derive(Debug)]
pub struct Field {
    pub ident: String,
    pub ty: Type,
}

impl Clone for Type {
    /// A structural copy; no contract of this crate depends on it.
    fn clone(&self) -> (r: Self)
        decreases self,
    {
        match self {
            Type::U8 => Type::U8,
            Type::I8 => Type::I8,
            Type::Array { ty, len } => Type::Array { ty: Box::new((&**ty).clone()), len: *len },
            Type::Pointer { ty } => Type::Pointer { ty: Box::new((&**ty).clone()) },
            Type::Fn => Type::Fn,
            Type::Struct { fields } => Type::Struct { fields: clone_fields(fields) },
            Type::Union { fields } => Type::Union { fields: clone_fields(fields) },
        }
    }
}

impl Clone for Field {
    /// A structural copy; no contract of this crate depends on it.
    fn clone(&self) -> (r: Self)
        decreases self,
    {
        Field { ident: self.ident.clone(), ty: self.ty.clone() }
    }
}

/// A structural copy of a field list.
fn clone_fields(fields: &Vec<Field>) -> (r: Vec<Field>)
    decreases *fields,
{
    let mut r: Vec<Field> = Vec::new();
    let mut i: usize = 0;
    while i < fields.len()
        invariant
            i <= fields@.len(),
        decreases fields@.len() - i,
    {
        r.push(fields[i].clone());
        i = i + 1;
    }
    r
}

/// Size in bytes of a type: leaves have fixed sizes, an array is `len`
/// elements, a struct is the sum of its fields, a union the largest field.
pub open spec fn size_of_spec(t: Type) -> int
    decreases t,
{
    match t {
        Type::U8 => 1,
        Type::I8 => 1,
        Type::Array { ty, len } => len * size_of_spec(*ty),
        Type::Pointer { ty: _ } => 2,
        Type::Fn => 2,
        Type::Struct { fields } => sum_sizes(fields@),
        Type::Union { fields } => max_sizes(fields@),
    }
}

/// Sum of the sizes of a field list.
pub open spec fn sum_sizes(fs: Seq<Field>) -> int
    decreases fs,
{
    if fs.len() == 0 {
        0
    } else {
        sum_sizes(fs.drop_last()) + size_of_spec(fs.last().ty)
    }
}

/// Largest size of a field list; zero when empty.
pub open spec fn max_sizes(fs: Seq<Field>) -> int
    decreases fs,
{
    if fs.len() == 0 {
        0
    } else {
        let rest = max_sizes(fs.drop_last());
        let last = size_of_spec(fs.last().ty);
        if last >= rest {
            last
        } else {
            rest
        }
    }
}

/// Whether a type and every type nested in it fit a 16-bit size, so the
/// layout's cursor arithmetic stays in range.
pub open spec fn sizes_ok(t: Type) -> bool
    decreases t,
{
    &&& size_of_spec(t) <= 0xFFFF
    &&& match t {
        Type::Array { ty, len: _ } => sizes_ok(*ty),
        Type::Struct { fields } => all_sizes_ok(fields@),
        Type::Union { fields } => all_sizes_ok(fields@),
        _ => true,
    }
}

/// [`sizes_ok`] of every field of a list.
pub open spec fn all_sizes_ok(fs: Seq<Field>) -> bool
    decreases fs,
{
    fs.len() == 0 || (all_sizes_ok(fs.drop_last()) && sizes_ok(fs.last().ty))
}

/// A type that becomes one symbol rather than recursing.
pub open spec fn is_leaf(t: Type) -> bool {
    t is U8 || t is I8 || t is Array || t is Pointer || t is Fn
}

/// Sizes are never negative.
pub proof fn lemma_size_nonneg(t: Type)
    ensures
        size_of_spec(t) >= 0,
    decreases t,
{
    match t {
        Type::Array { ty, len } => {
            lemma_size_nonneg(*ty);
            let e = size_of_spec(*ty);
            assert(len * e >= 0) by (nonlinear_arith)
                requires
                    len >= 0,
                    e >= 0,
            ;
        },
        Type::Struct { fields } => lemma_sum_nonneg(fields@),
        Type::Union { fields } => lemma_max_nonneg(fields@),
        _ => {},
    }
}

proof fn lemma_sum_nonneg(fs: Seq<Field>)
    ensures
        sum_sizes(fs) >= 0,
    decreases fs,
{
    if fs.len() > 0 {
        lemma_sum_nonneg(fs.drop_last());
        lemma_size_nonneg(fs.last().ty);
    }
}

proof fn lemma_max_nonneg(fs: Seq<Field>)
    ensures
        max_sizes(fs) >= 0,
    decreases fs,
{
    if fs.len() > 0 {
        lemma_max_nonneg(fs.drop_last());
        lemma_size_nonneg(fs.last().ty);
    }
}

/// One more field extends a prefix sum by that field's size.
proof fn lemma_sum_take_succ(fs: Seq<Field>, i: int)
    requires
        0 <= i < fs.len(),
    ensures
        sum_sizes(fs.take(i + 1)) == sum_sizes(fs.take(i)) + size_of_spec(fs[i].ty),
{
    assert(fs.take(i + 1).drop_last() =~= fs.take(i));
    assert(fs.take(i + 1).last() == fs[i]);
}

/// A prefix sum never exceeds the whole sum.
proof fn lemma_sum_take_le(fs: Seq<Field>, i: int)
    requires
        0 <= i <= fs.len(),
    ensures
        sum_sizes(fs.take(i)) <= sum_sizes(fs),
    decreases fs.len() - i,
{
    if i == fs.len() {
        assert(fs.take(i) =~= fs);
    } else {
        lemma_sum_take_le(fs, i + 1);
        lemma_sum_take_succ(fs, i);
        lemma_size_nonneg(fs[i].ty);
    }
}

/// One more field extends a prefix maximum to the larger of the two.
proof fn lemma_max_take_succ(fs: Seq<Field>, i: int)
    requires
        0 <= i < fs.len(),
    ensures
        max_sizes(fs.take(i + 1)) == if size_of_spec(fs[i].ty) >= max_sizes(fs.take(i)) {
            size_of_spec(fs[i].ty)
        } else {
            max_sizes(fs.take(i))
        },
{
    assert(fs.take(i + 1).drop_last() =~= fs.take(i));
    assert(fs.take(i + 1).last() == fs[i]);
}

/// Every field's size is bounded by the list's maximum.
proof fn lemma_max_ge(fs: Seq<Field>, i: int)
    requires
        0 <= i < fs.len(),
    ensures
        size_of_spec(fs[i].ty) <= max_sizes(fs),
    decreases fs,
{
    if i == fs.len() - 1 {
        lemma_max_nonneg(fs.drop_last());
    } else {
        lemma_max_ge(fs.drop_last(), i);
        assert(fs.drop_last()[i] == fs[i]);
        lemma_size_nonneg(fs.last().ty);
    }
}

/// The ghost image of one allocated symbol.
pub ghost struct SymModel {
    /// Dotted, scope-qualified name.
    pub name: Seq<char>,
    /// Offset in its memory space.
    pub offset: int,
    /// Size in bytes.
    pub size: int,
    /// The space it lives in.
    pub space: Space,
}

/// A named, typed, sized location in one memory space. Created once when a
/// field is allocated; never mutated.
#[derive(Debug, Clone)]
pub struct Symbol {
    /// Symbolic name: the field's dotted path, scope-qualified with `::`.
    pub name: String,
    /// Offset in virtual memory.
    pub offset: u16,
    /// Size of the symbol itself.
    pub size: u16,
    /// The type of the symbol.
    pub type_: Type,
    /// Virtual memory space.
    pub space: Space,
}

impl View for Symbol {
    type V = SymModel;

    open spec fn view(&self) -> SymModel {
        SymModel {
            name: self.name@,
            offset: self.offset as int,
            size: self.size as int,
            space: self.space,
        }
    }
}

/// The ghost images of a list of symbols.
pub open spec fn sym_views(s: Seq<Symbol>) -> Seq<SymModel> {
    Seq::new(s.len(), |i: int| s[i]@)
}

/// The scope-qualified name of a field under a prefix: the bare identifier
/// at top level, `prefix::identifier` below it.
pub open spec fn qualified(prefix: Seq<char>, ident: Seq<char>) -> Seq<char> {
    if prefix.len() == 0 {
        ident
    } else {
        prefix + "::"@ + ident
    }
}

/// The symbols one field contributes, laid out from `base`: one symbol for a
/// leaf, its flattened fields for a struct or union.
pub open spec fn flatten_field(prefix: Seq<char>, base: int, f: Field, space: Space) -> Seq<
    SymModel,
>
    decreases f,
{
    let name = qualified(prefix, f.ident@);
    match f.ty {
        Type::Struct { fields } => flatten_struct(name, base, fields@, space),
        Type::Union { fields } => flatten_union(name, base, fields@, space),
        _ => seq![
            SymModel { name, offset: base, size: size_of_spec(f.ty), space },
        ],
    }
}

/// Struct rule: each field starts where the previous ones end.
pub open spec fn flatten_struct(prefix: Seq<char>, base: int, fs: Seq<Field>, space: Space) -> Seq<
    SymModel,
>
    decreases fs,
{
    if fs.len() == 0 {
        Seq::empty()
    } else {
        flatten_struct(prefix, base, fs.drop_last(), space) + flatten_field(
            prefix,
            base + sum_sizes(fs.drop_last()),
            fs.last(),
            space,
        )
    }
}

/// Union rule: every field starts at the union's own offset.
pub open spec fn flatten_union(prefix: Seq<char>, base: int, fs: Seq<Field>, space: Space) -> Seq<
    SymModel,
>
    decreases fs,
{
    if fs.len() == 0 {
        Seq::empty()
    } else {
        flatten_union(prefix, base, fs.drop_last(), space) + flatten_field(
            prefix,
            base,
            fs.last(),
            space,
        )
    }
}

/// One more field extends a struct flattening at the prefix-sum offset.
proof fn lemma_flatten_struct_take_succ(
    prefix: Seq<char>,
    base: int,
    fs: Seq<Field>,
    space: Space,
    i: int,
)
    requires
        0 <= i < fs.len(),
    ensures
        flatten_struct(prefix, base, fs.take(i + 1), space) == flatten_struct(
            prefix,
            base,
            fs.take(i),
            space,
        ) + flatten_field(prefix, base + sum_sizes(fs.take(i)), fs[i], space),
{
    assert(fs.take(i + 1).drop_last() =~= fs.take(i));
    assert(fs.take(i + 1).last() == fs[i]);
}

/// One more field extends a union flattening at the union's own offset.
proof fn lemma_flatten_union_take_succ(
    prefix: Seq<char>,
    base: int,
    fs: Seq<Field>,
    space: Space,
    i: int,
)
    requires
        0 <= i < fs.len(),
    ensures
        flatten_union(prefix, base, fs.take(i + 1), space) == flatten_union(
            prefix,
            base,
            fs.take(i),
            space,
        ) + flatten_field(prefix, base, fs[i], space),
{
    assert(fs.take(i + 1).drop_last() =~= fs.take(i));
    assert(fs.take(i + 1).last() == fs[i]);
}

/// Size in bytes of a type.
pub fn size_of(t: &Type) -> (r: u16)
    requires
        sizes_ok(*t),
    ensures
        r == size_of_spec(*t),
    decreases *t,
{
    match t {
        Type::U8 => 1,
        Type::I8 => 1,
        Type::Pointer { ty: _ } => 2,
        Type::Fn => 2,
        Type::Array { ty, len } => {
            let elem = size_of(&**ty);
            proof {
                lemma_size_nonneg(**ty);
                assert(*len * elem <= 0xFFFF * 0xFFFF) by (nonlinear_arith)
                    requires
                        0 <= *len <= 0xFFFF,
                        0 <= elem <= 0xFFFF,
                ;
            }
            let product = *len as u32 * elem as u32;
            product as u16
        },
        Type::Struct { fields } => sum_field_sizes(fields),
        Type::Union { fields } => max_field_sizes(fields),
    }
}

/// Size in bytes of one field's type.
fn field_size(f: &Field) -> (r: u16)
    requires
        sizes_ok(f.ty),
    ensures
        r == size_of_spec(f.ty),
    decreases *f,
{
    size_of(&f.ty)
}

/// Sum of the sizes of a field list: the struct rule.
fn sum_field_sizes(fields: &Vec<Field>) -> (r: u16)
    requires
        all_sizes_ok(fields@),
        sum_sizes(fields@) <= 0xFFFF,
    ensures
        r == sum_sizes(fields@),
    decreases *fields,
{
    let mut total: u16 = 0;
    let mut i: usize = 0;
    while i < fields.len()
        invariant
            i <= fields@.len(),
            all_sizes_ok(fields@),
            sum_sizes(fields@) <= 0xFFFF,
            total == sum_sizes(fields@.take(i as int)),
        decreases fields@.len() - i,
    {
        proof {
            lemma_all_sizes_ok_at(fields@, i as int);
            lemma_sum_take_succ(fields@, i as int);
            lemma_sum_take_le(fields@, i as int + 1);
            lemma_sum_nonneg(fields@.take(i as int));
            lemma_size_nonneg(fields@[i as int].ty);
            assert(decreases_to!(*fields => fields@));
            assert(decreases_to!(fields@ => fields@[i as int]));
        }
        let s = field_size(&fields[i]);
        total = total + s;
        i = i + 1;
    }
    proof {
        assert(fields@.take(fields@.len() as int) =~= fields@);
    }
    total
}

/// Largest of the sizes of a field list: the union rule.
fn max_field_sizes(fields: &Vec<Field>) -> (r: u16)
    requires
        all_sizes_ok(fields@),
        max_sizes(fields@) <= 0xFFFF,
    ensures
        r == max_sizes(fields@),
    decreases *fields,
{
    let mut total: u16 = 0;
    let mut i: usize = 0;
    while i < fields.len()
        invariant
            i <= fields@.len(),
            all_sizes_ok(fields@),
            max_sizes(fields@) <= 0xFFFF,
            total == max_sizes(fields@.take(i as int)),
        decreases fields@.len() - i,
    {
        proof {
            lemma_all_sizes_ok_at(fields@, i as int);
            lemma_max_take_succ(fields@, i as int);
            lemma_max_ge(fields@, i as int);
            lemma_size_nonneg(fields@[i as int].ty);
            assert(decreases_to!(*fields => fields@));
            assert(decreases_to!(fields@ => fields@[i as int]));
        }
        let s = field_size(&fields[i]);
        if s > total {
            total = s;
        }
        i = i + 1;
    }
    proof {
        assert(fields@.take(fields@.len() as int) =~= fields@);
    }
    total
}

/// Every field of a well-sized list is well-sized.
proof fn lemma_all_sizes_ok_at(fs: Seq<Field>, i: int)
    requires
        all_sizes_ok(fs),
        0 <= i < fs.len(),
    ensures
        sizes_ok(fs[i].ty),
        size_of_spec(fs[i].ty) <= 0xFFFF,
    decreases fs,
{
    if i == fs.len() - 1 {
    } else {
        lemma_all_sizes_ok_at(fs.drop_last(), i);
        assert(fs.drop_last()[i] == fs[i]);
    }
}

/// The ghost image of the symbol allocator: the symbols of each space and
/// each space's allocation cursor.
#[verifier::ext_equal]
pub ghost struct SymTabModel {
    pub absolute: Seq<SymModel>,
    pub consts: Seq<SymModel>,
    pub statics: Seq<SymModel>,
    pub stack: Seq<SymModel>,
    pub absolute_cursor: int,
    pub const_cursor: int,
    pub static_cursor: int,
    pub stack_cursor: int,
}

/// The first symbol of a list carrying a name, if any.
pub open spec fn find_first(syms: Seq<SymModel>, name: Seq<char>) -> Option<SymModel>
    decreases syms,
{
    if syms.len() == 0 {
        Option::None
    } else if syms[0].name == name {
        Option::Some(syms[0])
    } else {
        find_first(syms.drop_first(), name)
    }
}

/// Lookup across the four spaces, stack symbols shadowing static ones,
/// those shadowing const, those shadowing absolute.
pub open spec fn lookup(m: SymTabModel, name: Seq<char>) -> Option<SymModel> {
    match find_first(m.stack, name) {
        Option::Some(s) => Option::Some(s),
        Option::None => match find_first(m.statics, name) {
            Option::Some(s) => Option::Some(s),
            Option::None => match find_first(m.consts, name) {
                Option::Some(s) => Option::Some(s),
                Option::None => find_first(m.absolute, name),
            },
        },
    }
}

/// Whether a name is defined in none of the four spaces.
pub open spec fn spec_undefined(m: SymTabModel, name: Seq<char>) -> bool {
    &&& find_first(m.stack, name) is None
    &&& find_first(m.statics, name) is None
    &&& find_first(m.consts, name) is None
    &&& find_first(m.absolute, name) is None
}

/// An unmatched prefix does not change what a search finds.
proof fn lemma_find_first_skip(syms: Seq<SymModel>, name: Seq<char>, i: int)
    requires
        0 <= i <= syms.len(),
        forall|j: int| 0 <= j < i ==> (#[trigger] syms[j]).name != name,
    ensures
        find_first(syms, name) == find_first(syms.skip(i), name),
    decreases i,
{
    if i == 0 {
        assert(syms.skip(0) =~= syms);
    } else {
        assert(syms.drop_first() =~= syms.skip(1));
        lemma_find_first_skip(syms.drop_first(), name, i - 1);
        assert(syms.drop_first().skip(i - 1) =~= syms.skip(i));
    }
}

/// The symbol allocator: per-space symbol tables with monotonically
/// increasing allocation cursors.
pub struct SymbolAlloc {
    absolute_symbols: Vec<Symbol>,
    const_symbols: Vec<Symbol>,
    static_symbols: Vec<Symbol>,
    stack_symbols: Vec<Symbol>,
    absolute_symbols_alloc: u16,
    const_symbols_alloc: u16,
    static_symbols_alloc: u16,
    stack_symbols_alloc: u16,
}

impl View for SymbolAlloc {
    type V = SymTabModel;

    closed spec fn view(&self) -> SymTabModel {
        SymTabModel {
            absolute: sym_views(self.absolute_symbols@),
            consts: sym_views(self.const_symbols@),
            statics: sym_views(self.static_symbols@),
            stack: sym_views(self.stack_symbols@),
            absolute_cursor: self.absolute_symbols_alloc as int,
            const_cursor: self.const_symbols_alloc as int,
            static_cursor: self.static_symbols_alloc as int,
            stack_cursor: self.stack_symbols_alloc as int,
        }
    }
}

impl Default for SymbolAlloc {
    /// An empty allocator: no symbols, every cursor at zero.
    fn default() -> (r: Self)
        ensures
            r@.absolute.len() == 0,
            r@.consts.len() == 0,
            r@.statics.len() == 0,
            r@.stack.len() == 0,
            r@.absolute_cursor == 0,
            r@.const_cursor == 0,
            r@.static_cursor == 0,
            r@.stack_cursor == 0,
    {
        SymbolAlloc {
            absolute_symbols: Vec::new(),
            const_symbols: Vec::new(),
            static_symbols: Vec::new(),
            stack_symbols: Vec::new(),
            absolute_symbols_alloc: 0,
            const_symbols_alloc: 0,
            static_symbols_alloc: 0,
            stack_symbols_alloc: 0,
        }
    }
}

impl SymbolAlloc {
    /// Drops all stack symbols and resets the stack cursor — called between
    /// routine lowerings, since stack storage does not persist across calls.
    pub fn clear_stack(&mut self)
        ensures
            final(self)@ == (SymTabModel { stack: Seq::empty(), stack_cursor: 0, ..old(self)@ }),
    {
        self.stack_symbols.clear();
        self.stack_symbols_alloc = 0;
        proof {
            assert(self@ =~= (SymTabModel { stack: Seq::empty(), stack_cursor: 0, ..old(self)@ }));
        }
    }

    /// Allocates a field in const space at the const cursor, which advances
    /// by the field's size. The name must be undefined across all four
    /// spaces; a duplicate is a contract violation of the lowering pass.
    pub fn alloc_const(&mut self, field: &Field)
        requires
            spec_undefined(old(self)@, field.ident@),
            sizes_ok(field.ty),
            old(self)@.const_cursor + size_of_spec(field.ty) <= 0xFFFF,
        ensures
            final(self)@ == (SymTabModel {
                consts: old(self)@.consts + flatten_field(
                    Seq::<char>::empty(),
                    old(self)@.const_cursor,
                    *field,
                    Space::Const,
                ),
                const_cursor: old(self)@.const_cursor + size_of_spec(field.ty),
                ..old(self)@
            }),
    {
        let prefix = String::new();
        let size = Self::compute_all_symbols(
            &prefix,
            self.const_symbols_alloc,
            field,
            Space::Const,
            &mut self.const_symbols,
        );
        self.const_symbols_alloc = self.const_symbols_alloc + size;
        proof {
            assert(self@ =~= (SymTabModel {
                consts: old(self)@.consts + flatten_field(
                    Seq::<char>::empty(),
                    old(self)@.const_cursor,
                    *field,
                    Space::Const,
                ),
                const_cursor: old(self)@.const_cursor + size_of_spec(field.ty),
                ..old(self)@
            }));
        }
    }

    /// Allocates a field in static space at the static cursor, which
    /// advances by the field's size.
    pub fn alloc_static(&mut self, field: &Field)
        requires
            spec_undefined(old(self)@, field.ident@),
            sizes_ok(field.ty),
            old(self)@.static_cursor + size_of_spec(field.ty) <= 0xFFFF,
        ensures
            final(self)@ == (SymTabModel {
                statics: old(self)@.statics + flatten_field(
                    Seq::<char>::empty(),
                    old(self)@.static_cursor,
                    *field,
                    Space::Static,
                ),
                static_cursor: old(self)@.static_cursor + size_of_spec(field.ty),
                ..old(self)@
            }),
    {
        let prefix = String::new();
        let size = Self::compute_all_symbols(
            &prefix,
            self.static_symbols_alloc,
            field,
            Space::Static,
            &mut self.static_symbols,
        );
        self.static_symbols_alloc = self.static_symbols_alloc + size;
        proof {
            assert(self@ =~= (SymTabModel {
                statics: old(self)@.statics + flatten_field(
                    Seq::<char>::empty(),
                    old(self)@.static_cursor,
                    *field,
                    Space::Static,
                ),
                static_cursor: old(self)@.static_cursor + size_of_spec(field.ty),
                ..old(self)@
            }));
        }
    }

    /// Declares a field at a user-fixed offset in the shared static range.
    /// Overlap with other symbols is legal here; the frontend is responsible
    /// for permitting or preventing aliasing. The absolute cursor does not
    /// move.
    pub fn alloc_absolute(&mut self, field: &Field, offset: u16)
        requires
            spec_undefined(old(self)@, field.ident@),
            sizes_ok(field.ty),
            offset + size_of_spec(field.ty) <= 0xFFFF,
        ensures
            final(self)@ == (SymTabModel {
                absolute: old(self)@.absolute + flatten_field(
                    Seq::<char>::empty(),
                    offset as int,
                    *field,
                    Space::Absolute,
                ),
                ..old(self)@
            }),
    {
        let prefix = String::new();
        let _ = Self::compute_all_symbols(
            &prefix,
            offset,
            field,
            Space::Absolute,
            &mut self.absolute_symbols,
        );
        proof {
            assert(self@ =~= (SymTabModel {
                absolute: old(self)@.absolute + flatten_field(
                    Seq::<char>::empty(),
                    offset as int,
                    *field,
                    Space::Absolute,
                ),
                ..old(self)@
            }));
        }
    }

    /// Allocates a field in stack space at the stack cursor and returns the
    /// first allocated address; the cursor advances by the field's size.
    pub fn alloc_stack_field(&mut self, field: &Field) -> (r: u16)
        requires
            spec_undefined(old(self)@, field.ident@),
            sizes_ok(field.ty),
            old(self)@.stack_cursor + size_of_spec(field.ty) <= 0xFFFF,
        ensures
            r == old(self)@.stack_cursor,
            final(self)@ == (SymTabModel {
                stack: old(self)@.stack + flatten_field(
                    Seq::<char>::empty(),
                    old(self)@.stack_cursor,
                    *field,
                    Space::Stack,
                ),
                stack_cursor: old(self)@.stack_cursor + size_of_spec(field.ty),
                ..old(self)@
            }),
    {
        let prefix = String::new();
        let size = Self::compute_all_symbols(
            &prefix,
            self.stack_symbols_alloc,
            field,
            Space::Stack,
            &mut self.stack_symbols,
        );
        let first = self.stack_symbols_alloc;
        self.stack_symbols_alloc = self.stack_symbols_alloc + size;
        proof {
            assert(self@ =~= (SymTabModel {
                stack: old(self)@.stack + flatten_field(
                    Seq::<char>::empty(),
                    old(self)@.stack_cursor,
                    *field,
                    Space::Stack,
                ),
                stack_cursor: old(self)@.stack_cursor + size_of_spec(field.ty),
                ..old(self)@
            }));
        }
        first
    }

    /// Whether `ident` is defined in none of the four spaces — the
    /// precondition of every allocation entry point.
    pub fn is_undefined(&self, ident: &str) -> (r: bool)
        ensures
            r == spec_undefined(self@, ident@),
    {
        let name = ident.to_owned();
        Self::scan(&self.stack_symbols, &name).is_none() && Self::scan(
            &self.static_symbols,
            &name,
        ).is_none() && Self::scan(&self.const_symbols, &name).is_none() && Self::scan(
            &self.absolute_symbols,
            &name,
        ).is_none()
    }

    /// Locates a symbol by name, scanning stack, static, const, then
    /// absolute symbols in that priority order (a stack symbol shadows a
    /// same-named one elsewhere). The name must be defined; looking up an
    /// undefined name is a contract violation of the lowering pass.
    pub fn get(&self, name: &str) -> (r: &Symbol)
        requires
            lookup(self@, name@) is Some,
        ensures
            r@ == lookup(self@, name@)->Some_0,
    {
        let name_s = name.to_owned();
        match Self::scan(&self.stack_symbols, &name_s) {
            Option::Some(i) => {
                return &self.stack_symbols[i];
            },
            Option::None => {},
        }
        match Self::scan(&self.static_symbols, &name_s) {
            Option::Some(i) => {
                return &self.static_symbols[i];
            },
            Option::None => {},
        }
        match Self::scan(&self.const_symbols, &name_s) {
            Option::Some(i) => {
                return &self.const_symbols[i];
            },
            Option::None => {},
        }
        match Self::scan(&self.absolute_symbols, &name_s) {
            Option::Some(i) => {
                return &self.absolute_symbols[i];
            },
            Option::None => {},
        }
        proof {
            assert(false);
        }
        &self.absolute_symbols[0]
    }

    /// Index of the first symbol carrying `name`, if any.
    fn scan(v: &Vec<Symbol>, name: &String) -> (r: Option<usize>)
        ensures
            match r {
                Option::Some(i) => i < v@.len() && find_first(sym_views(v@), name@)
                    == Option::Some(v@[i as int]@),
                Option::None => find_first(sym_views(v@), name@) is None,
            },
    {
        let mut i: usize = 0;
        while i < v.len()
            invariant
                i <= v@.len(),
                forall|j: int| 0 <= j < i ==> (#[trigger] sym_views(v@)[j]).name != name@,
            decreases v@.len() - i,
        {
            if v[i].name.eq(name) {
                proof {
                    lemma_find_first_skip(sym_views(v@), name@, i as int);
                    assert(sym_views(v@).skip(i as int)[0] == sym_views(v@)[i as int]);
                }
                return Option::Some(i);
            }
            i = i + 1;
        }
        proof {
            lemma_find_first_skip(sym_views(v@), name@, i as int);
            assert(sym_views(v@).skip(i as int).len() == 0);
        }
        Option::None
    }

    /// Registers one symbol per leaf of `field`'s type under `prefix`,
    /// offsets laid out from `offset` by the struct and union rules, and
    /// returns the field's total size.
    fn compute_all_symbols(
        prefix: &String,
        offset: u16,
        field: &Field,
        space: Space,
        symbols: &mut Vec<Symbol>,
    ) -> (size: u16)
        requires
            sizes_ok(field.ty),
            offset + size_of_spec(field.ty) <= 0xFFFF,
        ensures
            size == size_of_spec(field.ty),
            sym_views(final(symbols)@) == sym_views(old(symbols)@) + flatten_field(
                prefix@,
                offset as int,
                *field,
                space,
            ),
        decreases *field,
    {
        let name: String = if prefix.as_str().is_empty() {
            field.ident.clone()
        } else {
            let mut p = prefix.clone();
            p.append("::");
            p.append(field.ident.as_str());
            p
        };
        proof {
            assert(name@ == qualified(prefix@, field.ident@));
        }
        let size = size_of(&field.ty);
        match &field.ty {
            Type::Struct { fields } => {
                Self::struct_field_symbols(&name, offset, fields, space, symbols);
            },
            Type::Union { fields } => {
                Self::union_field_symbols(&name, offset, fields, space, symbols);
            },
            _ => {
                symbols.push(
                    Symbol { name, offset, size, type_: field.ty.clone(), space },
                );
                proof {
                    assert(sym_views(symbols@) =~= sym_views(old(symbols)@) + flatten_field(
                        prefix@,
                        offset as int,
                        *field,
                        space,
                    ));
                }
            },
        }
        size
    }

    /// Registers the symbols of a struct's field list: each field starts
    /// where the previous ones end.
    fn struct_field_symbols(
        name: &String,
        offset: u16,
        fields: &Vec<Field>,
        space: Space,
        symbols: &mut Vec<Symbol>,
    )
        requires
            all_sizes_ok(fields@),
            offset + sum_sizes(fields@) <= 0xFFFF,
        ensures
            sym_views(final(symbols)@) == sym_views(old(symbols)@) + flatten_struct(
                name@,
                offset as int,
                fields@,
                space,
            ),
        decreases *fields,
    {
        let mut off = offset;
        let mut i: usize = 0;
        while i < fields.len()
            invariant
                i <= fields@.len(),
                all_sizes_ok(fields@),
                offset + sum_sizes(fields@) <= 0xFFFF,
                off == offset + sum_sizes(fields@.take(i as int)),
                sym_views(symbols@) == sym_views(old(symbols)@) + flatten_struct(
                    name@,
                    offset as int,
                    fields@.take(i as int),
                    space,
                ),
            decreases fields@.len() - i,
        {
            proof {
                lemma_all_sizes_ok_at(fields@, i as int);
                lemma_sum_take_succ(fields@, i as int);
                lemma_sum_take_le(fields@, i as int + 1);
                lemma_sum_nonneg(fields@.take(i as int));
                lemma_size_nonneg(fields@[i as int].ty);
                lemma_sum_nonneg(fields@);
                lemma_flatten_struct_take_succ(name@, offset as int, fields@, space, i as int);
                assert(decreases_to!(*fields => fields@));
                assert(decreases_to!(fields@ => fields@[i as int]));
            }
            let consumed = Self::compute_all_symbols(name, off, &fields[i], space, symbols);
            off = off + consumed;
            i = i + 1;
        }
        proof {
            assert(fields@.take(fields@.len() as int) =~= fields@);
        }
    }

    /// Registers the symbols of a union's field list: every field starts at
    /// the union's own offset.
    fn union_field_symbols(
        name: &String,
        offset: u16,
        fields: &Vec<Field>,
        space: Space,
        symbols: &mut Vec<Symbol>,
    )
        requires
            all_sizes_ok(fields@),
            offset + max_sizes(fields@) <= 0xFFFF,
        ensures
            sym_views(final(symbols)@) == sym_views(old(symbols)@) + flatten_union(
                name@,
                offset as int,
                fields@,
                space,
            ),
        decreases *fields,
    {
        let mut i: usize = 0;
        while i < fields.len()
            invariant
                i <= fields@.len(),
                all_sizes_ok(fields@),
                offset + max_sizes(fields@) <= 0xFFFF,
                sym_views(symbols@) == sym_views(old(symbols)@) + flatten_union(
                    name@,
                    offset as int,
                    fields@.take(i as int),
                    space,
                ),
            decreases fields@.len() - i,
        {
            proof {
                lemma_all_sizes_ok_at(fields@, i as int);
                lemma_max_ge(fields@, i as int);
                lemma_size_nonneg(fields@[i as int].ty);
                lemma_max_nonneg(fields@);
                lemma_flatten_union_take_succ(name@, offset as int, fields@, space, i as int);
                assert(decreases_to!(*fields => fields@));
                assert(decreases_to!(fields@ => fields@[i as int]));
            }
            let _ = Self::compute_all_symbols(name, offset, &fields[i], space, symbols);
            i = i + 1;
        }
        proof {
            assert(fields@.take(fields@.len() as int) =~= fields@);
        }
    }
}

/// Law of struct layout: a struct of three leaf fields of sizes `a`, `b`
/// and `c`, flattened from `base`, yields exactly three symbols at offsets
/// `base`, `base + a` and `base + a + b`, and consumes `a + b + c` bytes —
/// which is what the space's cursor advances by after an allocation.
pub proof fn lemma_struct_layout(prefix: Seq<char>, base: int, fields: Seq<Field>, space: Space)
    requires
        fields.len() == 3,
        is_leaf(fields[0].ty),
        is_leaf(fields[1].ty),
        is_leaf(fields[2].ty),
    ensures
        ({
            let a = size_of_spec(fields[0].ty);
            let b = size_of_spec(fields[1].ty);
            let c = size_of_spec(fields[2].ty);
            let syms = flatten_struct(prefix, base, fields, space);
            &&& sum_sizes(fields) == a + b + c
            &&& syms.len() == 3
            &&& syms[0] == (SymModel {
                name: qualified(prefix, fields[0].ident@),
                offset: base,
                size: a,
                space,
            })
            &&& syms[1] == (SymModel {
                name: qualified(prefix, fields[1].ident@),
                offset: base + a,
                size: b,
                space,
            })
            &&& syms[2] == (SymModel {
                name: qualified(prefix, fields[2].ident@),
                offset: base + a + b,
                size: c,
                space,
            })
        }),
{
    reveal_with_fuel(sum_sizes, 4);
    reveal_with_fuel(flatten_struct, 4);
    let fs2 = fields.drop_last();
    let fs1 = fs2.drop_last();
    assert(fs1.drop_last().len() == 0);
    assert(fs1.last() == fields[0]);
    assert(fs2.last() == fields[1]);
    assert(fields.last() == fields[2]);
    assert(sum_sizes(fs1.drop_last()) == 0);
    assert(sum_sizes(fs1) == size_of_spec(fields[0].ty));
    assert(sum_sizes(fs2) == size_of_spec(fields[0].ty) + size_of_spec(fields[1].ty));
    assert(flatten_struct(prefix, base, fs1, space) =~= flatten_field(
        prefix,
        base,
        fields[0],
        space,
    ));
}

/// Law of union layout: a union of three leaf fields, flattened from
/// `base`, yields three symbols all at offset `base`, and its size — what
/// it contributes to an enclosing cursor — is the size of its largest
/// member.
pub proof fn lemma_union_layout(prefix: Seq<char>, base: int, fields: Seq<Field>, space: Space)
    requires
        fields.len() == 3,
        is_leaf(fields[0].ty),
        is_leaf(fields[1].ty),
        is_leaf(fields[2].ty),
    ensures
        ({
            let a = size_of_spec(fields[0].ty);
            let b = size_of_spec(fields[1].ty);
            let c = size_of_spec(fields[2].ty);
            let m = max_sizes(fields);
            let syms = flatten_union(prefix, base, fields, space);
            &&& m >= a && m >= b && m >= c
            &&& m == a || m == b || m == c
            &&& syms.len() == 3
            &&& syms[0] == (SymModel {
                name: qualified(prefix, fields[0].ident@),
                offset: base,
                size: a,
                space,
            })
            &&& syms[1] == (SymModel {
                name: qualified(prefix, fields[1].ident@),
                offset: base,
                size: b,
                space,
            })
            &&& syms[2] == (SymModel {
                name: qualified(prefix, fields[2].ident@),
                offset: base,
                size: c,
                space,
            })
        }),
{
    reveal_with_fuel(max_sizes, 4);
    reveal_with_fuel(flatten_union, 4);
    let fs2 = fields.drop_last();
    let fs1 = fs2.drop_last();
    assert(fs1.drop_last().len() == 0);
    assert(fs1.last() == fields[0]);
    assert(fs2.last() == fields[1]);
    assert(fields.last() == fields[2]);
    assert(max_sizes(fs1.drop_last()) == 0);
    lemma_size_nonneg(fields[0].ty);
    lemma_size_nonneg(fields[1].ty);
    lemma_size_nonneg(fields[2].ty);
    assert(flatten_union(prefix, base, fs1, space) =~= flatten_field(
        prefix,
        base,
        fields[0],
        space,
    ));
}

/// A function declaration, as the function allocator stores it: the
/// allocator itself reads only the name.
#[derive(Debug, Clone)]
pub struct FnDecl {
    pub ident: String,
}

/// Infallible function allocator: maps function names to their declarations
/// for call-site resolution. Its model is the sequence of registered names.
pub struct FnAlloc {
    fns: Vec<FnDecl>,
}

/// Whether a registered-name list holds `name`.
pub open spec fn contains_name(m: Seq<Seq<char>>, name: Seq<char>) -> bool {
    exists|i: int| 0 <= i < m.len() && m[i] == name
}

impl View for FnAlloc {
    type V = Seq<Seq<char>>;

    closed spec fn view(&self) -> Seq<Seq<char>> {
        Seq::new(self.fns@.len(), |i: int| self.fns@[i].ident@)
    }
}

impl Default for FnAlloc {
    /// An empty allocator.
    fn default() -> (r: Self)
        ensures
            r@.len() == 0,
    {
        FnAlloc { fns: Vec::new() }
    }
}

impl FnAlloc {
    /// Registers a function declaration under its name. Two functions of the
    /// same name are a contract violation of the lowering pass: there is no
    /// overloading.
    pub fn allocate(&mut self, f: FnDecl)
        requires
            !contains_name(old(self)@, f.ident@),
        ensures
            final(self)@ == old(self)@.push(f.ident@),
    {
        self.fns.push(f);
        proof {
            assert(self@ =~= old(self)@.push(self.fns@.last().ident@));
        }
    }

    /// Returns the declaration registered under `name`. Looking up an
    /// unregistered name is a contract violation of the lowering pass.
    pub fn get(&self, name: &str) -> (r: &FnDecl)
        requires
            contains_name(self@, name@),
        ensures
            r.ident@ == name@,
    {
        let name_s = name.to_owned();
        let mut i: usize = 0;
        while i < self.fns.len()
            invariant
                i <= self.fns@.len(),
                contains_name(self@, name_s@),
                name_s@ == name@,
                forall|j: int| 0 <= j < i ==> self@[j] != name@,
            decreases self.fns@.len() - i,
        {
            if self.fns[i].ident.eq(&name_s) {
                return &self.fns[i];
            }
            i = i + 1;
        }
        proof {
            assert(false);
        }
        &self.fns[0]
    }
}

} // verus!
