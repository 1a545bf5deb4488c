//! Binding generation: the two interface descriptions bridging the foreign
//! static library and the host language. Direction A emits a C-compatible
//! header for the host-side symbols callable from foreign code; Direction B
//! parses the foreign compiler's emitted header and produces host-language
//! declarations mirroring every exported symbol. Both artifacts are fully
//! rewritten on every run, never patched.

use vstd::prelude::*;

use crate::BuildError;

verus! {

/// The portable scalar types a bridged symbol may use. `Void` stands only
/// for the absence of a return value, never for a parameter.
#[derive(Debug, Clone, Copy, PartialEq, Eq, Structural)]
pub enum CType {
    I32,
    I64,
    U32,
    U64,
    Bool,
    Void,
}

/// One exported function signature: its name, parameter types and return
/// type, the shared ABI view both sides must agree on.
#[derive(Debug, Clone, PartialEq, Eq)]
pub struct Symbol {
    pub name: String,
    pub params: Vec<CType>,
    pub ret: CType,
}

/// The mathematical value of a `Symbol`.
pub ghost struct SymbolV {
    pub name: Seq<char>,
    pub params: Seq<CType>,
    pub ret: CType,
}

impl View for Symbol {
    type V = SymbolV;

    open spec fn view(&self) -> SymbolV {
        SymbolV { name: self.name@, params: self.params@, ret: self.ret }
    }
}

/// The values of a sequence of symbols.
pub open spec fn views_of(ss: Seq<Symbol>) -> Seq<SymbolV> {
    ss.map_values(|s: Symbol| s@)
}

/// The C spelling of each scalar type.
pub open spec fn c_type_name(t: CType) -> Seq<char> {
    match t {
        CType::I32 => seq!['i', 'n', 't', '3', '2', '_', 't'],
        CType::I64 => seq!['i', 'n', 't', '6', '4', '_', 't'],
        CType::U32 => seq!['u', 'i', 'n', 't', '3', '2', '_', 't'],
        CType::U64 => seq!['u', 'i', 'n', 't', '6', '4', '_', 't'],
        CType::Bool => seq!['b', 'o', 'o', 'l'],
        CType::Void => seq!['v', 'o', 'i', 'd'],
    }
}

/// The host-language spelling of each scalar type.
pub open spec fn rust_type_name(t: CType) -> Seq<char> {
    match t {
        CType::I32 => seq!['i', '3', '2'],
        CType::I64 => seq!['i', '6', '4'],
        CType::U32 => seq!['u', '3', '2'],
        CType::U64 => seq!['u', '6', '4'],
        CType::Bool => seq!['b', 'o', 'o', 'l'],
        CType::Void => seq!['(', ')'],
    }
}

/// Identifier characters: ASCII letters, digits and underscore.
pub open spec fn is_ident_char(c: char) -> bool {
    (97 <= c as u32 && c as u32 <= 122) || (65 <= c as u32 && c as u32 <= 90) || (48 <= c as u32
        && c as u32 <= 57) || c as u32 == 95
}

/// ASCII digits.
pub open spec fn is_digit_char(c: char) -> bool {
    48 <= c as u32 && c as u32 <= 57
}

/// A symbol both sides can represent: a nonempty identifier name that does
/// not start with a digit, no `void` parameter, and any return type.
pub open spec fn wf_symbol(s: SymbolV) -> bool {
    &&& s.name.len() > 0
    &&& forall|i: int| 0 <= i < s.name.len() ==> is_ident_char(#[trigger] s.name[i])
    &&& !is_digit_char(s.name[0])
    &&& forall|i: int| 0 <= i < s.params.len() ==> #[trigger] s.params[i] != CType::Void
}

/// Every symbol of a set is well formed.
pub open spec fn wf_symbols(syms: Seq<SymbolV>) -> bool {
    forall|i: int| 0 <= i < syms.len() ==> wf_symbol(#[trigger] syms[i])
}

/// The comma-separated C parameter list.
pub open spec fn spec_param_list(ps: Seq<CType>) -> Seq<char>
    decreases ps.len(),
{
    if ps.len() == 0 {
        Seq::<char>::empty()
    } else if ps.len() == 1 {
        c_type_name(ps[0])
    } else {
        c_type_name(ps[0]) + seq![',', ' '] + spec_param_list(ps.drop_first())
    }
}

/// One C declaration line: `ret name(params);` and a newline.
pub open spec fn spec_decl(s: SymbolV) -> Seq<char> {
    c_type_name(s.ret) + seq![' '] + s.name + seq!['('] + spec_param_list(s.params) + seq![
        ')',
        ';',
        '\n',
    ]
}

/// The whole generated header: one declaration line per symbol, in order.
pub open spec fn spec_header(syms: Seq<SymbolV>) -> Seq<char>
    decreases syms.len(),
{
    if syms.len() == 0 {
        Seq::<char>::empty()
    } else {
        spec_decl(syms[0]) + spec_header(syms.drop_first())
    }
}

/// The comma-separated host-language parameter list.
pub open spec fn spec_rust_param_list(ps: Seq<CType>) -> Seq<char>
    decreases ps.len(),
{
    if ps.len() == 0 {
        Seq::<char>::empty()
    } else if ps.len() == 1 {
        rust_type_name(ps[0])
    } else {
        rust_type_name(ps[0]) + seq![',', ' '] + spec_rust_param_list(ps.drop_first())
    }
}

/// One host-language declaration line mirroring a symbol.
pub open spec fn spec_binding_line(s: SymbolV) -> Seq<char> {
    seq!['f', 'n', ' '] + s.name + seq!['('] + spec_rust_param_list(s.params) + seq![
        ')',
        ' ',
        '-',
        '>',
        ' ',
    ] + rust_type_name(s.ret) + seq![';', '\n']
}

/// The whole host-language binding source: one line per symbol, in order.
pub open spec fn spec_bindings(syms: Seq<SymbolV>) -> Seq<char>
    decreases syms.len(),
{
    if syms.len() == 0 {
        Seq::<char>::empty()
    } else {
        spec_binding_line(syms[0]) + spec_bindings(syms.drop_first())
    }
}

/// Whether one symbol is representable on both sides, so that the header
/// emitted for it parses back to it.
pub fn symbol_is_wf(s: &Symbol) -> (r: bool)
    ensures
        r == wf_symbol(s@),
{
    let n = s.name.as_str().unicode_len();
    if n == 0 {
        return false;
    }
    let mut i: usize = 0;
    while i < n
        invariant
            0 < n == s.name@.len(),
            0 <= i <= n,
            forall|k: int| 0 <= k < i ==> is_ident_char(#[trigger] s.name@[k]),
        decreases n - i,
    {
        if !ident_char(s.name.as_str().get_char(i)) {
            return false;
        }
        i = i + 1;
    }
    if digit_char(s.name.as_str().get_char(0)) {
        return false;
    }
    let mut j: usize = 0;
    while j < s.params.len()
        invariant
            0 <= j <= s.params@.len(),
            forall|k: int| 0 <= k < j ==> #[trigger] s.params@[k] != CType::Void,
        decreases s.params@.len() - j,
    {
        if matches!(s.params[j], CType::Void) {
            return false;
        }
        j = j + 1;
    }
    true
}

/// Whether every symbol of a set is representable.
pub fn symbols_are_wf(symbols: &Vec<Symbol>) -> (r: bool)
    ensures
        r == wf_symbols(views_of(symbols@)),
{
    let mut i: usize = 0;
    while i < symbols.len()
        invariant
            0 <= i <= symbols@.len(),
            forall|k: int| 0 <= k < i ==> wf_symbol(#[trigger] views_of(symbols@)[k]),
        decreases symbols@.len() - i,
    {
        if !symbol_is_wf(&symbols[i]) {
            assert(views_of(symbols@)[i as int] == symbols@[i as int]@);
            return false;
        }
        i = i + 1;
    }
    true
}

/// The C spelling of a scalar type, as a value.
pub fn c_type_str(t: CType) -> (r: String)
    ensures
        r@ == c_type_name(t),
{
    let r = match t {
        CType::I32 => String::from_str("int32_t"),
        CType::I64 => String::from_str("int64_t"),
        CType::U32 => String::from_str("uint32_t"),
        CType::U64 => String::from_str("uint64_t"),
        CType::Bool => String::from_str("bool"),
        CType::Void => String::from_str("void"),
    };
    proof {
        reveal_strlit("int32_t");
        reveal_strlit("int64_t");
        reveal_strlit("uint32_t");
        reveal_strlit("uint64_t");
        reveal_strlit("bool");
        reveal_strlit("void");
        assert(r@ =~= c_type_name(t));
    }
    r
}

/// The host-language spelling of a scalar type, as a value.
pub fn rust_type_str(t: CType) -> (r: String)
    ensures
        r@ == rust_type_name(t),
{
    let r = match t {
        CType::I32 => String::from_str("i32"),
        CType::I64 => String::from_str("i64"),
        CType::U32 => String::from_str("u32"),
        CType::U64 => String::from_str("u64"),
        CType::Bool => String::from_str("bool"),
        CType::Void => String::from_str("()"),
    };
    proof {
        reveal_strlit("i32");
        reveal_strlit("i64");
        reveal_strlit("u32");
        reveal_strlit("u64");
        reveal_strlit("bool");
        reveal_strlit("()");
        assert(r@ =~= rust_type_name(t));
    }
    r
}

/// The C parameter list of the symbol's parameters from index `i` on.
fn emit_params_from(ps: &Vec<CType>, i: usize) -> (r: String)
    requires
        i <= ps@.len(),
    ensures
        r@ == spec_param_list(ps@.subrange(i as int, ps@.len() as int)),
    decreases ps@.len() - i,
{
    let ghost tail = ps@.subrange(i as int, ps@.len() as int);
    if i == ps.len() {
        let r = String::new();
        assert(r@ =~= spec_param_list(tail));
        r
    } else if i + 1 == ps.len() {
        let r = c_type_str(ps[i]);
        assert(tail.len() == 1 && tail[0] == ps@[i as int]);
        r
    } else {
        let rest = emit_params_from(ps, i + 1);
        let r = c_type_str(ps[i]).concat(", ").concat(rest.as_str());
        proof {
            reveal_strlit(", ");
            assert(", "@ =~= seq![',', ' ']);
            assert(tail.drop_first() =~= ps@.subrange(i as int + 1, ps@.len() as int));
            assert(tail[0] == ps@[i as int]);
            assert(r@ =~= spec_param_list(tail));
        }
        r
    }
}

/// One C declaration line for a symbol.
pub fn emit_decl(s: &Symbol) -> (r: String)
    ensures
        r@ == spec_decl(s@),
{
    let r = c_type_str(s.ret)
        .concat(" ")
        .concat(s.name.as_str())
        .concat("(")
        .concat(emit_params_from(&s.params, 0).as_str())
        .concat(");\n");
    proof {
        reveal_strlit(" ");
        reveal_strlit("(");
        reveal_strlit(");\n");
        assert(s.params@.subrange(0, s.params@.len() as int) =~= s.params@);
        assert(r@ =~= spec_decl(s@));
    }
    r
}

/// The header text for the symbols from index `i` on.
fn emit_header_from(symbols: &Vec<Symbol>, i: usize) -> (r: String)
    requires
        i <= symbols@.len(),
    ensures
        r@ == spec_header(views_of(symbols@).subrange(i as int, symbols@.len() as int)),
    decreases symbols@.len() - i,
{
    let ghost tail = views_of(symbols@).subrange(i as int, symbols@.len() as int);
    if i == symbols.len() {
        let r = String::new();
        assert(r@ =~= spec_header(tail));
        r
    } else {
        let rest = emit_header_from(symbols, i + 1);
        let r = emit_decl(&symbols[i]).concat(rest.as_str());
        proof {
            assert(tail[0] == symbols@[i as int]@);
            assert(tail.drop_first() =~= views_of(symbols@).subrange(
                i as int + 1,
                symbols@.len() as int,
            ));
            assert(r@ =~= spec_header(tail));
        }
        r
    }
}

/// Direction A: the full C-compatible header describing the given exported
/// symbols, one declaration per symbol, regenerated in full on every call.
pub fn emit_header(symbols: &Vec<Symbol>) -> (r: String)
    ensures
        r@ == spec_header(views_of(symbols@)),
{
    let r = emit_header_from(symbols, 0);
    proof {
        assert(views_of(symbols@).subrange(0, symbols@.len() as int) =~= views_of(symbols@));
    }
    r
}

/// The host-language parameter list of the symbol's parameters from `i` on.
fn emit_rust_params_from(ps: &Vec<CType>, i: usize) -> (r: String)
    requires
        i <= ps@.len(),
    ensures
        r@ == spec_rust_param_list(ps@.subrange(i as int, ps@.len() as int)),
    decreases ps@.len() - i,
{
    let ghost tail = ps@.subrange(i as int, ps@.len() as int);
    if i == ps.len() {
        let r = String::new();
        assert(r@ =~= spec_rust_param_list(tail));
        r
    } else if i + 1 == ps.len() {
        let r = rust_type_str(ps[i]);
        assert(tail.len() == 1 && tail[0] == ps@[i as int]);
        r
    } else {
        let rest = emit_rust_params_from(ps, i + 1);
        let r = rust_type_str(ps[i]).concat(", ").concat(rest.as_str());
        proof {
            reveal_strlit(", ");
            assert(", "@ =~= seq![',', ' ']);
            assert(tail.drop_first() =~= ps@.subrange(i as int + 1, ps@.len() as int));
            assert(tail[0] == ps@[i as int]);
            assert(r@ =~= spec_rust_param_list(tail));
        }
        r
    }
}

/// One host-language declaration line for a symbol.
pub fn emit_binding_line(s: &Symbol) -> (r: String)
    ensures
        r@ == spec_binding_line(s@),
{
    let r = String::from_str("fn ")
        .concat(s.name.as_str())
        .concat("(")
        .concat(emit_rust_params_from(&s.params, 0).as_str())
        .concat(") -> ")
        .concat(rust_type_str(s.ret).as_str())
        .concat(";\n");
    proof {
        reveal_strlit("fn ");
        reveal_strlit("(");
        reveal_strlit(") -> ");
        reveal_strlit(";\n");
        assert(s.params@.subrange(0, s.params@.len() as int) =~= s.params@);
        assert(r@ =~= spec_binding_line(s@));
    }
    r
}

/// The binding text for the symbols from index `i` on.
fn emit_bindings_from(symbols: &Vec<Symbol>, i: usize) -> (r: String)
    requires
        i <= symbols@.len(),
    ensures
        r@ == spec_bindings(views_of(symbols@).subrange(i as int, symbols@.len() as int)),
    decreases symbols@.len() - i,
{
    let ghost tail = views_of(symbols@).subrange(i as int, symbols@.len() as int);
    if i == symbols.len() {
        let r = String::new();
        assert(r@ =~= spec_bindings(tail));
        r
    } else {
        let rest = emit_bindings_from(symbols, i + 1);
        let r = emit_binding_line(&symbols[i]).concat(rest.as_str());
        proof {
            assert(tail[0] == symbols@[i as int]@);
            assert(tail.drop_first() =~= views_of(symbols@).subrange(
                i as int + 1,
                symbols@.len() as int,
            ));
            assert(r@ =~= spec_bindings(tail));
        }
        r
    }
}

/// Direction B's output: the full host-language binding source mirroring
/// every given symbol, regenerated in full on every call.
pub fn emit_bindings(symbols: &Vec<Symbol>) -> (r: String)
    ensures
        r@ == spec_bindings(views_of(symbols@)),
{
    let r = emit_bindings_from(symbols, 0);
    proof {
        assert(views_of(symbols@).subrange(0, symbols@.len() as int) =~= views_of(symbols@));
    }
    r
}

/// Whether `lit` occurs in `s` at position `i`.
pub open spec fn s_at(s: Seq<char>, i: int, lit: Seq<char>) -> bool {
    0 <= i && i + lit.len() <= s.len() && s.subrange(i, i + lit.len() as int) == lit
}

/// Parses one C type name at `i`: the result carries the position just past
/// the name. The type names are pairwise prefix-free, so at most one
/// matches.
pub open spec fn sp_type(s: Seq<char>, i: int) -> Option<(CType, int)> {
    if s_at(s, i, c_type_name(CType::I32)) {
        Option::Some((CType::I32, i + c_type_name(CType::I32).len() as int))
    } else if s_at(s, i, c_type_name(CType::I64)) {
        Option::Some((CType::I64, i + c_type_name(CType::I64).len() as int))
    } else if s_at(s, i, c_type_name(CType::U32)) {
        Option::Some((CType::U32, i + c_type_name(CType::U32).len() as int))
    } else if s_at(s, i, c_type_name(CType::U64)) {
        Option::Some((CType::U64, i + c_type_name(CType::U64).len() as int))
    } else if s_at(s, i, c_type_name(CType::Bool)) {
        Option::Some((CType::Bool, i + c_type_name(CType::Bool).len() as int))
    } else if s_at(s, i, c_type_name(CType::Void)) {
        Option::Some((CType::Void, i + c_type_name(CType::Void).len() as int))
    } else {
        Option::None
    }
}

/// Parses one parameter type at `i`: as `sp_type`, but `void` is not a
/// parameter type.
pub open spec fn sp_ptype(s: Seq<char>, i: int) -> Option<(CType, int)> {
    match sp_type(s, i) {
        Option::Some((t, j)) => if t == CType::Void {
            Option::None
        } else {
            Option::Some((t, j))
        },
        Option::None => Option::None,
    }
}

/// The end of the identifier starting at `i`: the first position at or
/// after `i` holding no identifier character.
pub open spec fn sp_ident_end(s: Seq<char>, i: int) -> int
    decreases s.len() - i
        when 0 <= i <= s.len()
{
    if i == s.len() || !is_ident_char(s[i]) {
        i
    } else {
        sp_ident_end(s, i + 1)
    }
}

/// Parses a nonempty comma-separated parameter list at `i`, up to and over
/// the closing parenthesis; the result's position is just past it.
pub open spec fn sp_param_list(s: Seq<char>, i: int) -> Option<(Seq<CType>, int)>
    decreases s.len() - i
        when 0 <= i <= s.len()
{
    match sp_ptype(s, i) {
        Option::None => Option::None,
        Option::Some((t, j)) => {
            if s_at(s, j, seq![',', ' ']) {
                match sp_param_list(s, j + 2) {
                    Option::None => Option::None,
                    Option::Some((ts, k)) => Option::Some((seq![t] + ts, k)),
                }
            } else if s_at(s, j, seq![')']) {
                Option::Some((seq![t], j + 1))
            } else {
                Option::None
            }
        },
    }
}

/// Parses one declaration line at `i`: return type, one space, an
/// identifier that does not start with a digit, the parenthesized parameter
/// list, then `;` and a newline.
pub open spec fn sp_decl(s: Seq<char>, i: int) -> Option<(SymbolV, int)> {
    match sp_type(s, i) {
        Option::None => Option::None,
        Option::Some((ret, j)) => {
            if s_at(s, j, seq![' ']) && j + 1 <= s.len() {
                let ns = j + 1;
                let ne = sp_ident_end(s, ns);
                if ne > ns && !is_digit_char(s[ns]) && s_at(s, ne, seq!['(']) {
                    let after = if s_at(s, ne + 1, seq![')']) {
                        Option::Some((Seq::<CType>::empty(), ne + 2))
                    } else {
                        sp_param_list(s, ne + 1)
                    };
                    match after {
                        Option::None => Option::None,
                        Option::Some((ps, m)) => {
                            if s_at(s, m, seq![';', '\n']) {
                                Option::Some(
                                    (SymbolV { name: s.subrange(ns, ne), params: ps, ret }, m + 2),
                                )
                            } else {
                                Option::None
                            }
                        },
                    }
                } else {
                    Option::None
                }
            } else {
                Option::None
            }
        },
    }
}

/// Bound: a parsed type ends past where it began and within the text.
pub proof fn lemma_sp_type_bounds(s: Seq<char>, i: int)
    ensures
        sp_type(s, i) matches Option::Some(r) ==> i + 4 <= r.1 <= s.len(),
{
}

/// Bound: a parsed parameter list ends past where it began and within the
/// text.
pub proof fn lemma_sp_param_list_bounds(s: Seq<char>, i: int)
    requires
        0 <= i <= s.len(),
    ensures
        sp_param_list(s, i) matches Option::Some(r) ==> i + 5 <= r.1 <= s.len(),
    decreases s.len() - i,
{
    lemma_sp_type_bounds(s, i);
    if let Option::Some((t, j)) = sp_ptype(s, i) {
        if s_at(s, j, seq![',', ' ']) {
            lemma_sp_param_list_bounds(s, j + 2);
        }
    }
}

/// Bound: a parsed declaration ends past where it began and within the
/// text.
pub proof fn lemma_sp_decl_bounds(s: Seq<char>, i: int)
    requires
        0 <= i <= s.len(),
    ensures
        sp_decl(s, i) matches Option::Some(r) ==> i < r.1 <= s.len(),
{
    lemma_sp_type_bounds(s, i);
    if let Option::Some((ret, j)) = sp_type(s, i) {
        if s_at(s, j, seq![' ']) && j + 1 <= s.len() {
            let ns = j + 1;
            let ne = sp_ident_end(s, ns);
            lemma_sp_ident_end_bounds(s, ns);
            if ne > ns && !is_digit_char(s[ns]) && s_at(s, ne, seq!['(']) {
                if !s_at(s, ne + 1, seq![')']) {
                    lemma_sp_param_list_bounds(s, ne + 1);
                }
            }
        }
    }
}

/// Bound: the end of an identifier lies between its start and the text's
/// end.
pub proof fn lemma_sp_ident_end_bounds(s: Seq<char>, i: int)
    requires
        0 <= i <= s.len(),
    ensures
        i <= sp_ident_end(s, i) <= s.len(),
    decreases s.len() - i,
{
    if !(i == s.len() || !is_ident_char(s[i])) {
        lemma_sp_ident_end_bounds(s, i + 1);
    }
}

/// Every character of an identifier run is an identifier character.
proof fn lemma_sp_ident_end_chars(s: Seq<char>, i: int)
    requires
        0 <= i <= s.len(),
    ensures
        forall|k: int| i <= k < sp_ident_end(s, i) ==> is_ident_char(#[trigger] s[k]),
    decreases s.len() - i,
{
    if !(i == s.len() || !is_ident_char(s[i])) {
        lemma_sp_ident_end_chars(s, i + 1);
    }
}

/// A parsed parameter list never holds `void`.
proof fn lemma_sp_param_list_non_void(s: Seq<char>, i: int)
    requires
        0 <= i <= s.len(),
    ensures
        sp_param_list(s, i) matches Option::Some(r) ==> forall|q: int|
            0 <= q < r.0.len() ==> #[trigger] r.0[q] != CType::Void,
    decreases s.len() - i,
{
    lemma_sp_type_bounds(s, i);
    if let Option::Some((t, j)) = sp_ptype(s, i) {
        if s_at(s, j, seq![',', ' ']) {
            lemma_sp_param_list_non_void(s, j + 2);
        }
    }
}

/// A parsed declaration is a representable symbol: the parser admits only
/// identifier names that do not start with a digit and only non-`void`
/// parameter types.
proof fn lemma_sp_decl_wf(s: Seq<char>, i: int)
    requires
        0 <= i <= s.len(),
    ensures
        sp_decl(s, i) matches Option::Some(r) ==> wf_symbol(r.0),
{
    lemma_sp_type_bounds(s, i);
    if let Option::Some((ret, j)) = sp_type(s, i) {
        if s_at(s, j, seq![' ']) && j + 1 <= s.len() {
            let ns = j + 1;
            let ne = sp_ident_end(s, ns);
            lemma_sp_ident_end_bounds(s, ns);
            lemma_sp_ident_end_chars(s, ns);
            if ne > ns && !is_digit_char(s[ns]) && s_at(s, ne, seq!['(']) {
                let name = s.subrange(ns, ne);
                assert forall|k: int| 0 <= k < name.len() implies is_ident_char(
                    #[trigger] name[k],
                ) by {
                    assert(name[k] == s[ns + k]);
                }
                if !s_at(s, ne + 1, seq![')']) {
                    lemma_sp_param_list_non_void(s, ne + 1);
                }
            }
        }
    }
}

/// Parses a full header at `i`: declaration lines until the exact end of
/// the text.
pub open spec fn sp_header(s: Seq<char>, i: int) -> Option<Seq<SymbolV>>
    decreases s.len() - i
        when 0 <= i <= s.len()
        via sp_header_decreases
{
    if i == s.len() {
        Option::Some(Seq::<SymbolV>::empty())
    } else {
        match sp_decl(s, i) {
            Option::None => Option::None,
            Option::Some((sym, j)) => match sp_header(s, j) {
                Option::None => Option::None,
                Option::Some(rest) => Option::Some(seq![sym] + rest),
            },
        }
    }
}

#[via_fn]
proof fn sp_header_decreases(s: Seq<char>, i: int) {
    lemma_sp_decl_bounds(s, i);
}

/// Law: Direction B admits only representable symbols. Whatever header text
/// parses, every symbol it yields is well formed, so both sides can hold a
/// consistent view of it.
pub proof fn lemma_parsed_symbols_wf(s: Seq<char>, i: int)
    requires
        0 <= i <= s.len(),
    ensures
        sp_header(s, i) matches Option::Some(syms) ==> wf_symbols(syms),
    decreases s.len() - i,
{
    if i != s.len() {
        lemma_sp_decl_bounds(s, i);
        lemma_sp_decl_wf(s, i);
        if let Option::Some((sym, j)) = sp_decl(s, i) {
            lemma_parsed_symbols_wf(s, j);
            if let Option::Some(rest) = sp_header(s, j) {
                let syms = seq![sym] + rest;
                assert forall|k: int| 0 <= k < syms.len() implies wf_symbol(
                    #[trigger] syms[k],
                ) by {
                    if k > 0 {
                        assert(syms[k] == rest[k - 1]);
                    }
                }
            }
        }
    }
}

/// Whether the text holds `lit` at position `i`.
fn match_at(s: &str, i: usize, lit: &str) -> (r: bool)
    ensures
        r == s_at(s@, i as int, lit@),
{
    let n = s.unicode_len();
    let m = lit.unicode_len();
    if i > n || m > n - i {
        return false;
    }
    let mut k: usize = 0;
    while k < m
        invariant
            0 <= k <= m,
            i + m <= n,
            n == s@.len(),
            m == lit@.len(),
            forall|q: int| 0 <= q < k ==> s@[i + q] == lit@[q],
        decreases m - k,
    {
        if s.get_char(i + k) != lit.get_char(k) {
            proof {
                if s_at(s@, i as int, lit@) {
                    assert(s@.subrange(i as int, i as int + m as int)[k as int] == s@[i as int
                        + k as int]);
                }
            }
            return false;
        }
        k = k + 1;
    }
    proof {
        assert(s@.subrange(i as int, i as int + m as int) =~= lit@);
    }
    true
}

/// Whether `c` is an identifier character.
fn ident_char(c: char) -> (r: bool)
    ensures
        r == is_ident_char(c),
{
    let u = c as u32;
    (97 <= u && u <= 122) || (65 <= u && u <= 90) || (48 <= u && u <= 57) || u == 95
}

/// Whether `c` is an ASCII digit.
fn digit_char(c: char) -> (r: bool)
    ensures
        r == is_digit_char(c),
{
    let u = c as u32;
    48 <= u && u <= 57
}

/// Parses one C type name at `i`.
fn parse_type(s: &str, i: usize) -> (r: Option<(CType, usize)>)
    ensures
        match r {
            Option::Some(p) => sp_type(s@, i as int) == Option::Some((p.0, p.1 as int)) && p.1
                <= s@.len(),
            Option::None => sp_type(s@, i as int) is None,
        },
{
    let n = s.unicode_len();
    proof {
        reveal_strlit("int32_t");
        reveal_strlit("int64_t");
        reveal_strlit("uint32_t");
        reveal_strlit("uint64_t");
        reveal_strlit("bool");
        reveal_strlit("void");
        assert("int32_t"@ =~= c_type_name(CType::I32));
        assert("int64_t"@ =~= c_type_name(CType::I64));
        assert("uint32_t"@ =~= c_type_name(CType::U32));
        assert("uint64_t"@ =~= c_type_name(CType::U64));
        assert("bool"@ =~= c_type_name(CType::Bool));
        assert("void"@ =~= c_type_name(CType::Void));
    }
    if match_at(s, i, "int32_t") {
        Option::Some((CType::I32, i + 7))
    } else if match_at(s, i, "int64_t") {
        Option::Some((CType::I64, i + 7))
    } else if match_at(s, i, "uint32_t") {
        Option::Some((CType::U32, i + 8))
    } else if match_at(s, i, "uint64_t") {
        Option::Some((CType::U64, i + 8))
    } else if match_at(s, i, "bool") {
        Option::Some((CType::Bool, i + 4))
    } else if match_at(s, i, "void") {
        Option::Some((CType::Void, i + 4))
    } else {
        Option::None
    }
}

/// The end of the identifier starting at `i`.
fn parse_ident_end(s: &str, i: usize, n: usize) -> (r: usize)
    requires
        i <= n,
        n == s@.len(),
    ensures
        r as int == sp_ident_end(s@, i as int),
        i <= r <= n,
    decreases n - i,
{
    if i == n {
        return i;
    }
    if !ident_char(s.get_char(i)) {
        return i;
    }
    parse_ident_end(s, i + 1, n)
}

/// Parses a nonempty parameter list at `i`, up to and over the closing
/// parenthesis.
fn parse_param_list(s: &str, i: usize, n: usize) -> (r: Option<(Vec<CType>, usize)>)
    requires
        i <= n,
        n == s@.len(),
    ensures
        match r {
            Option::Some(p) => sp_param_list(s@, i as int) == Option::Some((p.0@, p.1 as int))
                && p.1 <= n,
            Option::None => sp_param_list(s@, i as int) is None,
        },
    decreases n - i,
{
    proof {
        reveal_strlit(", ");
        reveal_strlit(")");
        assert(", "@ =~= seq![',', ' ']);
        assert(")"@ =~= seq![')']);
    }
    match parse_type(s, i) {
        Option::None => Option::None,
        Option::Some((t, j)) => {
            if t == CType::Void {
                Option::None
            } else if match_at(s, j, ", ") {
                proof {
                    lemma_sp_type_bounds(s@, i as int);
                }
                match parse_param_list(s, j + 2, n) {
                    Option::None => Option::None,
                    Option::Some((ts, k)) => {
                        let ghost ts_view = ts@;
                        let mut v = ts;
                        v.insert(0, t);
                        proof {
                            assert(v@ =~= seq![t] + ts_view);
                        }
                        Option::Some((v, k))
                    },
                }
            } else if match_at(s, j, ")") {
                let mut v: Vec<CType> = Vec::new();
                v.push(t);
                proof {
                    assert(v@ =~= seq![t]);
                }
                Option::Some((v, j + 1))
            } else {
                Option::None
            }
        },
    }
}

/// Parses one declaration line at `i`.
fn parse_decl(s: &str, i: usize, n: usize) -> (r: Option<(Symbol, usize)>)
    requires
        i <= n,
        n == s@.len(),
    ensures
        match r {
            Option::Some(p) => sp_decl(s@, i as int) == Option::Some((p.0@, p.1 as int)) && i
                < p.1 <= n,
            Option::None => sp_decl(s@, i as int) is None,
        },
{
    proof {
        reveal_strlit(" ");
        reveal_strlit("(");
        reveal_strlit(")");
        reveal_strlit(";\n");
        assert(" "@ =~= seq![' ']);
        assert("("@ =~= seq!['(']);
        assert(")"@ =~= seq![')']);
        assert(";\n"@ =~= seq![';', '\n']);
    }
    match parse_type(s, i) {
        Option::None => Option::None,
        Option::Some((ret, j)) => {
            if !match_at(s, j, " ") {
                return Option::None;
            }
            let ns = j + 1;
            let ne = parse_ident_end(s, ns, n);
            if !(ne > ns) {
                return Option::None;
            }
            if digit_char(s.get_char(ns)) {
                return Option::None;
            }
            if !match_at(s, ne, "(") {
                return Option::None;
            }
            let after: Option<(Vec<CType>, usize)> = if match_at(s, ne + 1, ")") {
                Option::Some((Vec::new(), ne + 2))
            } else {
                parse_param_list(s, ne + 1, n)
            };
            match after {
                Option::None => Option::None,
                Option::Some((ps, m)) => {
                    if match_at(s, m, ";\n") {
                        let name = s.substring_char(ns, ne).to_owned();
                        proof {
                            lemma_sp_decl_bounds(s@, i as int);
                        }
                        Option::Some((Symbol { name, params: ps, ret }, m + 2))
                    } else {
                        Option::None
                    }
                },
            }
        },
    }
}

/// Parses the declarations from `i` to the exact end of the text.
fn parse_header_from(s: &str, i: usize, n: usize) -> (r: Option<Vec<Symbol>>)
    requires
        i <= n,
        n == s@.len(),
    ensures
        match r {
            Option::Some(v) => sp_header(s@, i as int) == Option::Some(views_of(v@)),
            Option::None => sp_header(s@, i as int) is None,
        },
    decreases n - i,
{
    if i == n {
        let v: Vec<Symbol> = Vec::new();
        proof {
            assert(views_of(v@) =~= Seq::<SymbolV>::empty());
        }
        return Option::Some(v);
    }
    match parse_decl(s, i, n) {
        Option::None => Option::None,
        Option::Some((sym, j)) => {
            match parse_header_from(s, j, n) {
                Option::None => Option::None,
                Option::Some(rest) => {
                    let ghost rest_view = rest@;
                    let ghost sym_view = sym@;
                    let mut v = rest;
                    v.insert(0, sym);
                    proof {
                        assert(views_of(v@) =~= seq![sym_view] + views_of(rest_view));
                    }
                    Option::Some(v)
                },
            }
        },
    }
}

/// Direction B's input side: parses the compiler-emitted header into the
/// exported symbols it declares. Parsing succeeds exactly when the whole
/// text is a sequence of declaration lines; otherwise the unit fails with
/// `BindingGenerationFailure`.
pub fn parse_header(s: &str) -> (r: Result<Vec<Symbol>, BuildError>)
    ensures
        r matches Ok(v) ==> sp_header(s@, 0) == Option::Some(views_of(v@)) && wf_symbols(
            views_of(v@),
        ),
        r matches Err(e) ==> sp_header(s@, 0) is None && (e
            matches BuildError::BindingGenerationFailure(m) && m@
            == "cannot parse generated header"@),
        r is Ok <==> sp_header(s@, 0) is Some,
{
    let n = s.unicode_len();
    proof {
        lemma_parsed_symbols_wf(s@, 0);
    }
    match parse_header_from(s, 0, n) {
        Option::Some(v) => Ok(v),
        Option::None => Err(
            BuildError::BindingGenerationFailure(String::from_str("cannot parse generated header")),
        ),
    }
}

/// Splitting: text holding `a + b` at `i` holds `a` at `i` and `b` just
/// after it.
proof fn lemma_s_at_split(s: Seq<char>, i: int, a: Seq<char>, b: Seq<char>)
    requires
        s_at(s, i, a + b),
    ensures
        s_at(s, i, a),
        s_at(s, i + a.len(), b),
{
    let ab = a + b;
    assert forall|k: int| 0 <= k < a.len() implies s.subrange(i, i + a.len() as int)[k]
        == a[k] by {
        assert(s.subrange(i, i + ab.len() as int)[k] == s[i + k]);
        assert(s.subrange(i, i + a.len() as int)[k] == s[i + k]);
        assert(ab[k] == a[k]);
    }
    assert(s.subrange(i, i + a.len() as int) =~= a);
    assert forall|k: int| 0 <= k < b.len() implies s.subrange(
        i + a.len(),
        i + a.len() + b.len() as int,
    )[k] == b[k] by {
        let q = a.len() + k;
        assert(s.subrange(i, i + ab.len() as int)[q] == s[i + q]);
        assert(s.subrange(i + a.len(), i + a.len() + b.len() as int)[k] == s[i + a.len() + k]);
        assert(ab[q] == b[k]);
    }
    assert(s.subrange(i + a.len(), i + a.len() + b.len() as int) =~= b);
}

/// Two type names occupying the same position agree at every shared index.
proof fn lemma_type_name_clash(s: Seq<char>, i: int, t: CType, t2: CType, k: int)
    requires
        s_at(s, i, c_type_name(t)),
        s_at(s, i, c_type_name(t2)),
        0 <= k < c_type_name(t).len(),
        0 <= k < c_type_name(t2).len(),
    ensures
        c_type_name(t)[k] == c_type_name(t2)[k],
{
    assert(s.subrange(i, i + c_type_name(t).len() as int)[k] == s[i + k]);
    assert(s.subrange(i, i + c_type_name(t2).len() as int)[k] == s[i + k]);
}

/// Text holding the name of `t` at `i` parses as exactly `t`: the type
/// names are pairwise prefix-free, so no other name can match there.
proof fn lemma_sp_type_at(s: Seq<char>, i: int, t: CType)
    requires
        s_at(s, i, c_type_name(t)),
    ensures
        sp_type(s, i) == Option::Some((t, i + c_type_name(t).len() as int)),
{
    match t {
        CType::I32 => {},
        CType::I64 => {
            if s_at(s, i, c_type_name(CType::I32)) {
                lemma_type_name_clash(s, i, CType::I64, CType::I32, 3);
            }
        },
        CType::U32 => {
            if s_at(s, i, c_type_name(CType::I32)) {
                lemma_type_name_clash(s, i, CType::U32, CType::I32, 0);
            }
            if s_at(s, i, c_type_name(CType::I64)) {
                lemma_type_name_clash(s, i, CType::U32, CType::I64, 0);
            }
        },
        CType::U64 => {
            if s_at(s, i, c_type_name(CType::I32)) {
                lemma_type_name_clash(s, i, CType::U64, CType::I32, 0);
            }
            if s_at(s, i, c_type_name(CType::I64)) {
                lemma_type_name_clash(s, i, CType::U64, CType::I64, 0);
            }
            if s_at(s, i, c_type_name(CType::U32)) {
                lemma_type_name_clash(s, i, CType::U64, CType::U32, 4);
            }
        },
        CType::Bool => {
            if s_at(s, i, c_type_name(CType::I32)) {
                lemma_type_name_clash(s, i, CType::Bool, CType::I32, 0);
            }
            if s_at(s, i, c_type_name(CType::I64)) {
                lemma_type_name_clash(s, i, CType::Bool, CType::I64, 0);
            }
            if s_at(s, i, c_type_name(CType::U32)) {
                lemma_type_name_clash(s, i, CType::Bool, CType::U32, 0);
            }
            if s_at(s, i, c_type_name(CType::U64)) {
                lemma_type_name_clash(s, i, CType::Bool, CType::U64, 0);
            }
        },
        CType::Void => {
            if s_at(s, i, c_type_name(CType::I32)) {
                lemma_type_name_clash(s, i, CType::Void, CType::I32, 0);
            }
            if s_at(s, i, c_type_name(CType::I64)) {
                lemma_type_name_clash(s, i, CType::Void, CType::I64, 0);
            }
            if s_at(s, i, c_type_name(CType::U32)) {
                lemma_type_name_clash(s, i, CType::Void, CType::U32, 0);
            }
            if s_at(s, i, c_type_name(CType::U64)) {
                lemma_type_name_clash(s, i, CType::Void, CType::U64, 0);
            }
            if s_at(s, i, c_type_name(CType::Bool)) {
                lemma_type_name_clash(s, i, CType::Void, CType::Bool, 0);
            }
        },
    }
}

/// An identifier run of known extent ends exactly where its last character
/// does.
proof fn lemma_sp_ident_end_at(s: Seq<char>, i: int, j: int)
    requires
        0 <= i <= j <= s.len(),
        forall|k: int| i <= k < j ==> is_ident_char(#[trigger] s[k]),
        j == s.len() || !is_ident_char(s[j]),
    ensures
        sp_ident_end(s, i) == j,
    decreases j - i,
{
    if i < j {
        lemma_sp_ident_end_at(s, i + 1, j);
    }
}

/// Text holding an emitted nonempty parameter list and its closing
/// parenthesis at `i` parses back to exactly those parameters.
proof fn lemma_sp_param_list_at(s: Seq<char>, i: int, ps: Seq<CType>)
    requires
        0 <= i,
        ps.len() >= 1,
        forall|k: int| 0 <= k < ps.len() ==> #[trigger] ps[k] != CType::Void,
        s_at(s, i, spec_param_list(ps) + seq![')']),
    ensures
        sp_param_list(s, i) == Option::Some(
            (ps, i + spec_param_list(ps).len() + 1),
        ),
    decreases ps.len(),
{
    let t = ps[0];
    if ps.len() == 1 {
        lemma_s_at_split(s, i, c_type_name(t), seq![')']);
        lemma_sp_type_at(s, i, t);
        let j = i + c_type_name(t).len() as int;
        assert(s[j] == ')') by {
            assert(s.subrange(j, j + 1) == seq![')']);
            assert(s.subrange(j, j + 1)[0] == s[j]);
        }
        assert(!s_at(s, j, seq![',', ' '])) by {
            if s_at(s, j, seq![',', ' ']) {
                assert(s.subrange(j, j + 2)[0] == s[j]);
            }
        }
        assert(seq![t] =~= ps);
    } else {
        let rest = ps.drop_first();
        let a = c_type_name(t);
        let b = seq![',', ' '];
        let c = spec_param_list(rest);
        let d = seq![')'];
        assert(spec_param_list(ps) == a + b + c);
        assert((a + b + c) + d =~= a + (b + (c + d)));
        lemma_s_at_split(s, i, a, b + (c + d));
        lemma_s_at_split(s, i + a.len(), b, c + d);
        lemma_sp_type_at(s, i, t);
        let j = i + a.len() as int;
        assert(s_at(s, j, seq![',', ' ']));
        assert forall|k: int| 0 <= k < rest.len() implies #[trigger] rest[k] != CType::Void by {
            assert(rest[k] == ps[k + 1]);
        }
        lemma_sp_param_list_at(s, j + 2, rest);
        assert(seq![t] + rest =~= ps);
    }
}

/// Text holding an emitted declaration at `i` parses back to exactly that
/// symbol.
proof fn lemma_sp_decl_at(s: Seq<char>, i: int, sym: SymbolV)
    requires
        0 <= i,
        wf_symbol(sym),
        s_at(s, i, spec_decl(sym)),
    ensures
        sp_decl(s, i) == Option::Some((sym, i + spec_decl(sym).len() as int)),
{
    let a = c_type_name(sym.ret);
    let sp = seq![' '];
    let nm = sym.name;
    let op = seq!['('];
    let pl = spec_param_list(sym.params);
    let tl = seq![')', ';', '\n'];
    assert(spec_decl(sym) =~= a + (sp + (nm + (op + (pl + tl)))));
    lemma_s_at_split(s, i, a, sp + (nm + (op + (pl + tl))));
    lemma_sp_type_at(s, i, sym.ret);
    let j = i + a.len() as int;
    lemma_s_at_split(s, j, sp, nm + (op + (pl + tl)));
    let ns = j + 1;
    lemma_s_at_split(s, ns, nm, op + (pl + tl));
    assert forall|k: int| ns <= k < ns + nm.len() implies is_ident_char(#[trigger] s[k]) by {
        assert(s.subrange(ns, ns + nm.len() as int)[k - ns] == s[k]);
    }
    let ne = ns + nm.len() as int;
    lemma_s_at_split(s, ne, op, pl + tl);
    assert(s[ne] == '(') by {
        assert(s.subrange(ne, ne + 1) == seq!['(']);
        assert(s.subrange(ne, ne + 1)[0] == s[ne]);
    }
    assert(!is_ident_char('('));
    lemma_sp_ident_end_at(s, ns, ne);
    assert(s[ns] == nm[0]) by {
        assert(s.subrange(ns, ne)[0] == s[ns]);
    }
    assert(s.subrange(ns, ne) == nm);
    if sym.params.len() == 0 {
        assert(pl + tl =~= seq![')'] + seq![';', '\n']);
        lemma_s_at_split(s, ne + 1, seq![')'], seq![';', '\n']);
        assert(sp_decl(s, i) == Option::Some(
            (SymbolV { name: s.subrange(ns, ne), params: Seq::<CType>::empty(), ret: sym.ret },
            ne + 4),
        ));
        assert(sym.params =~= Seq::<CType>::empty());
        assert(SymbolV { name: s.subrange(ns, ne), params: Seq::<CType>::empty(), ret: sym.ret }
            == sym);
    } else {
        lemma_s_at_split(s, ne + 1, pl, tl);
        assert(pl[0] == c_type_name(sym.params[0])[0]) by {
            if sym.params.len() > 1 {
                assert(pl == c_type_name(sym.params[0]) + seq![',', ' '] + spec_param_list(
                    sym.params.drop_first(),
                ));
            }
        }
        assert(s[ne + 1] == pl[0]) by {
            assert(s.subrange(ne + 1, ne + 1 + pl.len() as int)[0] == s[ne + 1]);
        }
        assert(c_type_name(sym.params[0])[0] != ')');
        assert(!s_at(s, ne + 1, seq![')'])) by {
            if s_at(s, ne + 1, seq![')']) {
                assert(s.subrange(ne + 1, ne + 2) == seq![')']);
                assert(s.subrange(ne + 1, ne + 2)[0] == s[ne + 1]);
            }
        }
        assert(pl + tl =~= (pl + seq![')']) + seq![';', '\n']);
        lemma_s_at_split(s, ne + 1, pl + seq![')'], seq![';', '\n']);
        lemma_sp_param_list_at(s, ne + 1, sym.params);
        let m = ne + 1 + pl.len() + 1;
        assert(s_at(s, m, seq![';', '\n']));
        assert(sp_decl(s, i) == Option::Some(
            (SymbolV { name: s.subrange(ns, ne), params: sym.params, ret: sym.ret }, m + 2),
        ));
        assert(SymbolV { name: s.subrange(ns, ne), params: sym.params, ret: sym.ret } == sym);
    }
}

/// Text that is exactly an emitted header from `i` on parses back to
/// exactly the emitted symbols.
proof fn lemma_sp_header_at(s: Seq<char>, i: int, syms: Seq<SymbolV>)
    requires
        0 <= i <= s.len(),
        wf_symbols(syms),
        s_at(s, i, spec_header(syms)),
        i + spec_header(syms).len() == s.len(),
    ensures
        sp_header(s, i) == Option::Some(syms),
    decreases syms.len(),
{
    if syms.len() == 0 {
        assert(Seq::<SymbolV>::empty() =~= syms);
    } else {
        let d = spec_decl(syms[0]);
        let rest = syms.drop_first();
        assert(spec_header(syms) == d + spec_header(rest));
        lemma_s_at_split(s, i, d, spec_header(rest));
        assert(wf_symbol(syms[0]));
        lemma_sp_decl_at(s, i, syms[0]);
        assert(c_type_name(syms[0].ret).len() >= 4);
        assert(i != s.len());
        let j = i + d.len() as int;
        assert forall|k: int| 0 <= k < rest.len() implies wf_symbol(#[trigger] rest[k]) by {
            assert(rest[k] == syms[k + 1]);
        }
        lemma_sp_header_at(s, j, rest);
        assert(seq![syms[0]] + rest =~= syms);
    }
}

/// Law: round trip. Parsing the header emitted for a set of representable
/// symbols recovers every symbol, with matching name, parameter types and
/// return type, in order — no symbol is lost and none is altered.
pub proof fn lemma_header_round_trip(syms: Seq<SymbolV>)
    requires
        wf_symbols(syms),
    ensures
        sp_header(spec_header(syms), 0) == Option::Some(syms),
{
    let s = spec_header(syms);
    assert(s.subrange(0, s.len() as int) =~= s);
    assert(s_at(s, 0, s));
    lemma_sp_header_at(s, 0, syms);
}

/// The end of the source path's stem, scanning back from `i`: just before
/// the last `.` of the final path component, or the whole path when that
/// component has no `.`.
pub open spec fn sp_stem_end(p: Seq<char>, i: int) -> int
    decreases i
        when 0 <= i <= p.len()
{
    if i <= 0 {
        p.len() as int
    } else if p[i - 1] == '.' {
        i - 1
    } else if p[i - 1] == '/' {
        p.len() as int
    } else {
        sp_stem_end(p, i - 1)
    }
}

/// Where the host-language binding source of a unit is written: adjacent to
/// the foreign source file, same basename, host-language extension.
pub open spec fn spec_binding_path(p: Seq<char>) -> Seq<char> {
    p.subrange(0, sp_stem_end(p, p.len() as int)) + seq!['.', 'r', 's']
}

/// Bound: the stem end lies within the path.
proof fn lemma_sp_stem_end_bounds(p: Seq<char>, i: int)
    requires
        0 <= i <= p.len(),
    ensures
        0 <= sp_stem_end(p, i) <= p.len(),
    decreases i,
{
    if !(i <= 0 || p[i - 1] == '.' || p[i - 1] == '/') {
        lemma_sp_stem_end_bounds(p, i - 1);
    }
}

/// The stem end, scanning back from `i`.
fn stem_end_from(s: &str, i: usize, n: usize) -> (r: usize)
    requires
        i <= n,
        n == s@.len(),
    ensures
        r as int == sp_stem_end(s@, i as int),
        r <= n,
    decreases i,
{
    proof {
        lemma_sp_stem_end_bounds(s@, i as int);
    }
    if i == 0 {
        return n;
    }
    let c = s.get_char(i - 1);
    if c == '.' {
        i - 1
    } else if c == '/' {
        n
    } else {
        stem_end_from(s, i - 1, n)
    }
}

/// The path of the generated host-language binding source for a foreign
/// source path: the same path with the final component's extension replaced
/// by the host language's.
pub fn binding_path(source_path: &str) -> (r: String)
    ensures
        r@ == spec_binding_path(source_path@),
{
    let n = source_path.unicode_len();
    let e = stem_end_from(source_path, n, n);
    let stem = source_path.substring_char(0, e);
    let r = String::from_str(stem).concat(".rs");
    proof {
        reveal_strlit(".rs");
        assert(r@ =~= spec_binding_path(source_path@));
    }
    r
}

} // verus!
