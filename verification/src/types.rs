//! The canonical type resolver: rewrites a rendered type expression
//! (constant-backed array lengths, box unwrapping) and parses the result
//! into the canonical algebraic [`IdlType`].

use vstd::prelude::*;
use crate::idl::{ExtractError, IdlType, TypeModel};
use crate::model::{ConstDecl, CrateContext};
use crate::text::{
    chars_of, contains_pat, contains_seq, is_ws, match_at, push_all, replace_all, replace_spec,
    str_eq, strip_ws_spec, strip_ws_vec, vec_eq_str, vec_subrange,
};

verus! {

/// Characters that may form an identifier or number token.
pub open spec fn is_ident_char(c: char) -> bool {
    (48 <= c as u32 && c as u32 <= 57) || (65 <= c as u32 && c as u32 <= 90) || (97 <= c as u32
        && c as u32 <= 122) || c as u32 == 95
}

/// Decimal digit characters.
pub open spec fn is_digit(c: char) -> bool {
    48 <= c as u32 && c as u32 <= 57
}

/// First position at or after `k` holding no identifier character.
pub open spec fn ident_end(s: Seq<char>, k: int) -> int
    decreases s.len() - k,
{
    if k < 0 || k >= s.len() {
        k
    } else if is_ident_char(s[k]) {
        ident_end(s, k + 1)
    } else {
        k
    }
}

/// First position at or after `k` holding no digit.
pub open spec fn digit_end(s: Seq<char>, k: int) -> int
    decreases s.len() - k,
{
    if k < 0 || k >= s.len() {
        k
    } else if is_digit(s[k]) {
        digit_end(s, k + 1)
    } else {
        k
    }
}

/// Value of a decimal digit string.
pub open spec fn digits_val(s: Seq<char>) -> nat
    decreases s.len(),
{
    if s.len() == 0 {
        0
    } else {
        digits_val(s.drop_last()) * 10 + (if is_digit(s.last()) {
            (s.last() as u32 - 48) as nat
        } else {
            0
        })
    }
}

/// A prefix never exceeds the whole digit string in value.
proof fn lemma_digits_val_mono(s: Seq<char>, j: int)
    requires
        0 <= j <= s.len(),
    ensures
        digits_val(s.take(j)) <= digits_val(s),
    decreases s.len(),
{
    if j == s.len() {
        assert(s.take(j) =~= s);
    } else {
        let d = s.drop_last();
        assert(s.take(j) =~= d.take(j));
        lemma_digits_val_mono(d, j);
        assert(digits_val(d) * 10 + (if is_digit(s.last()) {
            (s.last() as u32 - 48) as nat
        } else {
            0
        }) >= digits_val(d));
    }
}

/// Whether a declared constant type is one of the integer type names that
/// qualify a constant for array-length substitution.
pub open spec fn is_int_type_text(t: Seq<char>) -> bool {
    t == "usize"@ || t == "u8"@ || t == "u16"@ || t == "u32"@ || t == "u64"@ || t == "u128"@
        || t == "isize"@ || t == "i8"@ || t == "i16"@ || t == "i32"@ || t == "i64"@ || t == "i128"@
}

/// Whether another constant shares `c`'s name and integer type but differs
/// in value, making array-length substitution by name ambiguous.
pub open spec fn ambiguous_with(consts: Seq<ConstDecl>, c: ConstDecl) -> bool {
    exists|k: int|
        0 <= k < consts.len() && consts[k].name@ == c.name@ && consts[k].ty@ == c.ty@
            && consts[k].value@ != c.value@
}

/// Outcome of the textual constant-substitution pass.
pub enum SubstOutcome {
    /// The rewritten text.
    Done(Seq<char>),
    /// Substitution hit an ambiguously-named constant of this name.
    Clash(Seq<char>),
}

/// The textual array-length substitution, one constant at a time from
/// position `idx` on: for each integer-typed constant whose name occurs
/// before a closing bracket (plainly or under a numeric cast), every such
/// occurrence is replaced by the constant's literal value text.
pub open spec fn subst_spec(consts: Seq<ConstDecl>, idx: int, s: Seq<char>) -> SubstOutcome
    decreases consts.len() - idx,
{
    if idx < 0 || idx >= consts.len() {
        SubstOutcome::Done(s)
    } else {
        let c = consts[idx];
        if !is_int_type_text(c.ty@) {
            subst_spec(consts, idx + 1, s)
        } else {
            let cs = strip_ws_spec(s);
            let cast_pat = c.name@ + "asusize]"@;
            let pat = c.name@ + "]"@;
            if contains_seq(cs, cast_pat) {
                if ambiguous_with(consts, c) {
                    SubstOutcome::Clash(c.name@)
                } else {
                    subst_spec(consts, idx + 1, replace_spec(cs, cast_pat, c.value@ + "]"@))
                }
            } else if contains_seq(cs, pat) {
                if ambiguous_with(consts, c) {
                    SubstOutcome::Clash(c.name@)
                } else {
                    subst_spec(consts, idx + 1, replace_spec(cs, pat, c.value@ + "]"@))
                }
            } else {
                subst_spec(consts, idx + 1, s)
            }
        }
    }
}

/// Whether the declared type text of a constant is an integer type name.
pub fn is_int_type(t: &str) -> (r: bool)
    ensures
        r == is_int_type_text(t@),
{
    str_eq(t, "usize") || str_eq(t, "u8") || str_eq(t, "u16") || str_eq(t, "u32") || str_eq(
        t,
        "u64",
    ) || str_eq(t, "u128") || str_eq(t, "isize") || str_eq(t, "i8") || str_eq(t, "i16") || str_eq(
        t,
        "i32",
    ) || str_eq(t, "i64") || str_eq(t, "i128")
}

/// Whether substitution by `c`'s name would be ambiguous in this tree.
fn is_ambiguous(consts: &Vec<ConstDecl>, c: &ConstDecl) -> (r: bool)
    ensures
        r == ambiguous_with(consts@, *c),
{
    let mut k: usize = 0;
    while k < consts.len()
        invariant
            k <= consts@.len(),
            forall|m: int|
                0 <= m < k ==> !(consts@[m].name@ == c.name@ && consts@[m].ty@ == c.ty@
                    && consts@[m].value@ != c.value@),
        decreases consts@.len() - k,
    {
        if str_eq(consts[k].name.as_str(), c.name.as_str()) && str_eq(
            consts[k].ty.as_str(),
            c.ty.as_str(),
        ) && !str_eq(consts[k].value.as_str(), c.value.as_str()) {
            proof {
                let gk = k as int;
                assert(0 <= gk < consts@.len() && consts@[gk].name@ == c.name@ && consts@[gk].ty@
                    == c.ty@ && consts@[gk].value@ != c.value@);
            }
            return true;
        }
        k = k + 1;
    }
    false
}

/// Trusted: relies on `String: FromIterator<char>`, which concatenates
/// exactly the given characters in order.
#[verifier::external_body]
pub fn string_from_chars(v: &Vec<char>) -> (r: String)
    ensures
        r@ == v@,
{
    v.iter().collect()
}

/// Replace constant names standing for array lengths with the constants'
/// literal value texts; fatal if a matched name is shared by two integer
/// constants of the same type but different values.
pub fn resolve_variable_array_lengths(ctx: &CrateContext, tts_string: String) -> (r: Result<
    String,
    ExtractError,
>)
    ensures
        match r {
            Ok(v) => subst_spec(ctx.consts@, 0, tts_string@) == SubstOutcome::Done(v@),
            Err(e) => match e {
                ExtractError::AmbiguousConstant(n) => subst_spec(ctx.consts@, 0, tts_string@)
                    == SubstOutcome::Clash(n@),
                _ => false,
            },
        },
{
    let mut cur: Vec<char> = chars_of(tts_string.as_str());
    let mut idx: usize = 0;
    while idx < ctx.consts.len()
        invariant
            idx <= ctx.consts@.len(),
            subst_spec(ctx.consts@, 0, tts_string@) == subst_spec(ctx.consts@, idx as int, cur@),
        decreases ctx.consts@.len() - idx,
    {
        let c = &ctx.consts[idx];
        if is_int_type(c.ty.as_str()) {
            let cs = strip_ws_vec(&cur);
            let mut cast_pat = chars_of(c.name.as_str());
            let tail = chars_of("asusize]");
            push_all(&mut cast_pat, &tail);
            let mut pat = chars_of(c.name.as_str());
            let br = chars_of("]");
            push_all(&mut pat, &br);
            proof {
                reveal_strlit("]");
                reveal_strlit("asusize]");
            }
            let has_cast = contains_pat(&cs, &cast_pat);
            let has_plain = if has_cast {
                false
            } else {
                contains_pat(&cs, &pat)
            };
            if has_cast || has_plain {
                if is_ambiguous(&ctx.consts, c) {
                    let n = c.name.clone();
                    proof {
                        assert(n@ == c.name@);
                        assert(subst_spec(ctx.consts@, idx as int, cur@) == SubstOutcome::Clash(
                            c.name@,
                        ));
                        assert(subst_spec(ctx.consts@, 0, tts_string@) == subst_spec(
                            ctx.consts@,
                            idx as int,
                            cur@,
                        ));
                        assert(subst_spec(ctx.consts@, 0, tts_string@) == SubstOutcome::Clash(n@));
                    }
                    return Err(ExtractError::AmbiguousConstant(n));
                }
                let mut rep = chars_of(c.value.as_str());
                push_all(&mut rep, &br);
                let chosen = if has_cast {
                    &cast_pat
                } else {
                    &pat
                };
                proof {
                    assert(chosen@.len() > 0);
                }
                cur = replace_all(&cs, chosen, &rep);
            }
        }
        idx = idx + 1;
    }
    Ok(string_from_chars(&cur))
}


/// Clamp `x` into `[lo, s.len()]`.
pub open spec fn clamp_pos(s: Seq<char>, lo: int, x: int) -> int {
    if x < lo {
        lo
    } else if x > s.len() {
        s.len() as int
    } else {
        x
    }
}

/// The primitive type named by a bare word, if any.
pub open spec fn prim_model(w: Seq<char>) -> Option<TypeModel> {
    if w == "bool"@ {
        Some(TypeModel::Bool)
    } else if w == "u8"@ {
        Some(TypeModel::U8)
    } else if w == "u16"@ {
        Some(TypeModel::U16)
    } else if w == "u32"@ {
        Some(TypeModel::U32)
    } else if w == "u64"@ {
        Some(TypeModel::U64)
    } else if w == "u128"@ {
        Some(TypeModel::U128)
    } else if w == "i8"@ {
        Some(TypeModel::I8)
    } else if w == "i16"@ {
        Some(TypeModel::I16)
    } else if w == "i32"@ {
        Some(TypeModel::I32)
    } else if w == "i64"@ {
        Some(TypeModel::I64)
    } else if w == "i128"@ {
        Some(TypeModel::I128)
    } else if w == "String"@ {
        Some(TypeModel::Str)
    } else {
        None
    }
}

/// Parse one type starting at `pos` in whitespace-free text, yielding the
/// type and the position just past it.
pub open spec fn parse_ty_spec(s: Seq<char>, pos: int) -> Option<(TypeModel, int)>
    decreases s.len() - pos, 1int,
{
    if pos < 0 || pos >= s.len() {
        None
    } else if s[pos] == '[' {
        match parse_ty_spec(s, pos + 1) {
            None => None,
            Some((t, j)) => {
                if 0 <= j < s.len() && s[j] == ';' {
                    let d0 = j + 1;
                    let de = digit_end(s, d0);
                    if de > d0 && (s[d0] != '0' || de == d0 + 1) && de < s.len() && s[de] == ']'
                        && digits_val(s.subrange(d0, de)) < 18446744073709551616 {
                        Some(
                            (
                                TypeModel::Array(Box::new(t), digits_val(s.subrange(d0, de))),
                                de + 1,
                            ),
                        )
                    } else {
                        None
                    }
                } else {
                    None
                }
            },
        }
    } else if s[pos] == '(' {
        match parse_ty_spec(s, pos + 1) {
            None => None,
            Some((t, j)) => tuple_rest_spec(s, clamp_pos(s, pos + 1, j), seq![t]),
        }
    } else {
        let we = ident_end(s, pos);
        if we == pos {
            None
        } else {
            let w = s.subrange(pos, clamp_pos(s, pos, we));
            if we < s.len() && s[we] == '<' {
                if w == "Vec"@ || w == "Option"@ {
                    match parse_ty_spec(s, clamp_pos(s, pos + 1, we + 1)) {
                        None => None,
                        Some((t, j)) => {
                            if 0 <= j < s.len() && s[j] == '>' {
                                if w == "Vec"@ {
                                    Some((TypeModel::Vector(Box::new(t)), j + 1))
                                } else {
                                    Some((TypeModel::Opt(Box::new(t)), j + 1))
                                }
                            } else {
                                None
                            }
                        },
                    }
                } else {
                    None
                }
            } else {
                match prim_model(w) {
                    Some(p) => Some((p, we)),
                    None => Some((TypeModel::Defined(w), we)),
                }
            }
        }
    }
}

/// After the first element of a parenthesized tuple: a comma-separated
/// list of further types closed by a parenthesis; two or more elements.
pub open spec fn tuple_rest_spec(s: Seq<char>, pos: int, acc: Seq<TypeModel>) -> Option<
    (TypeModel, int),
>
    decreases s.len() - pos, 0int,
{
    if pos < 0 || pos >= s.len() {
        None
    } else if s[pos] == ')' {
        if acc.len() >= 2 {
            Some((TypeModel::Tuple(acc), pos + 1))
        } else {
            None
        }
    } else if s[pos] == ',' {
        match parse_ty_spec(s, pos + 1) {
            None => None,
            Some((t, j)) => tuple_rest_spec(s, clamp_pos(s, pos + 1, j), acc.push(t)),
        }
    } else {
        None
    }
}

/// Parse a whole whitespace-free type text: one type, consuming all of it.
pub open spec fn parse_type_spec(s: Seq<char>) -> Option<TypeModel> {
    match parse_ty_spec(s, 0) {
        Some((t, j)) => if j == s.len() {
            Some(t)
        } else {
            None
        },
        None => None,
    }
}

/// Strip one outermost box wrapper from whitespace-free type text.
pub open spec fn box_strip_spec(b: Seq<char>) -> Seq<char> {
    if b.len() >= 5 && b.take(4) == "Box<"@ && b[b.len() - 1] == '>' {
        b.subrange(4, b.len() - 1)
    } else {
        b
    }
}

/// Outcome of resolving one rendered type expression.
pub enum TypeOutcome {
    /// Array-length substitution hit an ambiguously-named constant.
    Ambiguous(Seq<char>),
    /// The rewritten text matched no recognized canonical shape.
    Unparsable,
    /// The canonical type.
    Ty(TypeModel),
}

/// The whole canonical type resolution: strip whitespace, substitute
/// constant-backed array lengths (for array forms), unwrap one box
/// wrapper, and parse the canonical shape.
pub open spec fn resolve_type_spec(consts: Seq<ConstDecl>, text: Seq<char>) -> TypeOutcome {
    let s0 = strip_ws_spec(text);
    let sub = if s0.len() > 0 && s0[0] == '[' {
        subst_spec(consts, 0, s0)
    } else {
        SubstOutcome::Done(s0)
    };
    match sub {
        SubstOutcome::Clash(n) => TypeOutcome::Ambiguous(n),
        SubstOutcome::Done(b) => {
            match parse_type_spec(box_strip_spec(b)) {
                Some(t) => TypeOutcome::Ty(t),
                None => TypeOutcome::Unparsable,
            }
        },
    }
}

/// The models of a list of canonical types.
pub open spec fn models_of(v: Seq<IdlType>) -> Seq<TypeModel> {
    v.map_values(|t: IdlType| t.model())
}

/// Whether `c` may stand in an identifier or number token.
fn is_ident_char_exec(c: char) -> (r: bool)
    ensures
        r == is_ident_char(c),
{
    let u = c as u32;
    (48 <= u && u <= 57) || (65 <= u && u <= 90) || (97 <= u && u <= 122) || u == 95
}

/// Scan the identifier token starting at `pos`.
fn scan_ident(s: &Vec<char>, pos: usize) -> (e: usize)
    requires
        pos <= s@.len(),
    ensures
        e == ident_end(s@, pos as int),
        pos <= e <= s@.len(),
    decreases s@.len() - pos,
{
    let mut i: usize = pos;
    while i < s.len() && is_ident_char_exec(s[i])
        invariant
            pos <= i <= s@.len(),
            ident_end(s@, pos as int) == ident_end(s@, i as int),
        decreases s@.len() - i,
    {
        i = i + 1;
    }
    i
}

/// Scan the digit run starting at `pos`.
fn scan_digits(s: &Vec<char>, pos: usize) -> (e: usize)
    requires
        pos <= s@.len(),
    ensures
        e == digit_end(s@, pos as int),
        pos <= e <= s@.len(),
        forall|k: int| pos <= k < e ==> is_digit(s@[k]),
{
    let mut i: usize = pos;
    while i < s.len() && is_digit_exec(s[i])
        invariant
            pos <= i <= s@.len(),
            digit_end(s@, pos as int) == digit_end(s@, i as int),
            forall|k: int| pos <= k < i ==> is_digit(s@[k]),
        decreases s@.len() - i,
    {
        i = i + 1;
    }
    i
}

/// Whether `c` is a decimal digit.
fn is_digit_exec(c: char) -> (r: bool)
    ensures
        r == is_digit(c),
{
    let u = c as u32;
    48 <= u && u <= 57
}

/// Read the decimal value of the digits between `from` and `to`; more than
/// any machine length can hold is refused.
fn digits_to_u64(s: &Vec<char>, from: usize, to: usize) -> (r: Option<u64>)
    requires
        from <= to <= s@.len(),
        forall|k: int| from <= k < to ==> is_digit(s@[k]),
    ensures
        match r {
            Some(v) => v as nat == digits_val(s@.subrange(from as int, to as int)),
            None => digits_val(s@.subrange(from as int, to as int)) >= 18446744073709551616,
        },
{
    let ghost whole = s@.subrange(from as int, to as int);
    let mut acc: u64 = 0;
    let mut j: usize = from;
    proof {
        assert(whole.take(0) =~= Seq::<char>::empty());
    }
    while j < to
        invariant
            from <= j <= to <= s@.len(),
            whole == s@.subrange(from as int, to as int),
            forall|k: int| from <= k < to ==> is_digit(s@[k]),
            acc as nat == digits_val(whole.take(j - from)),
        decreases to - j,
    {
        let u = s[j] as u32;
        proof {
            assert(is_digit(s@[j as int]));
        }
        let d = (u - 48) as u64;
        proof {
            let pre = whole.take(j - from + 1);
            assert(pre.drop_last() =~= whole.take(j - from));
            assert(pre.last() == s@[j as int]);
            assert(digits_val(pre) == digits_val(whole.take(j - from)) * 10 + (s@[j as int] as u32
                - 48));
        }
        if acc > (u64::MAX - d) / 10 {
            proof {
                assert((u64::MAX - d) / 10 * 10 + (u64::MAX - d) % 10 == u64::MAX - d);
                assert(acc as nat * 10 + d as nat > u64::MAX as nat);
                lemma_digits_val_mono(whole, j - from + 1);
            }
            return None;
        }
        proof {
            assert((u64::MAX - d) / 10 * 10 + (u64::MAX - d) % 10 == u64::MAX - d);
            assert(acc as nat * 10 + d as nat <= u64::MAX as nat);
        }
        acc = acc * 10 + d;
        j = j + 1;
    }
    proof {
        assert(whole.take(to - from) =~= whole);
    }
    Some(acc)
}


/// Parse one type starting at `pos`, returning it and the position just
/// past it.
fn parse_ty(s: &Vec<char>, pos: usize) -> (r: Option<(IdlType, usize)>)
    requires
        pos <= s@.len(),
    ensures
        match r {
            Some(p) => parse_ty_spec(s@, pos as int) == Some((p.0.model(), p.1 as int)) && pos
                < p.1 <= s@.len(),
            None => parse_ty_spec(s@, pos as int) is None,
        },
    decreases s@.len() - pos,
{
    if pos >= s.len() {
        return None;
    }
    let c = s[pos];
    if c == '[' {
        match parse_ty(s, pos + 1) {
            None => None,
            Some((t, j)) => {
                if j < s.len() && s[j] == ';' {
                    let d0 = j + 1;
                    let de = scan_digits(s, d0);
                    if de > d0 && de < s.len() && s[de] == ']' && (s[d0] != '0' || de == d0 + 1) {
                        match digits_to_u64(s, d0, de) {
                            Some(v) => Some((IdlType::Array(Box::new(t), v), de + 1)),
                            None => None,
                        }
                    } else {
                        None
                    }
                } else {
                    None
                }
            },
        }
    } else if c == '(' {
        match parse_ty(s, pos + 1) {
            None => None,
            Some((t0, j0)) => {
                let mut acc: Vec<IdlType> = Vec::new();
                acc.push(t0);
                let mut cur = j0;
                proof {
                    assert(clamp_pos(s@, pos as int + 1, j0 as int) == j0 as int);
                    assert(models_of(acc@) =~= seq![acc@[0].model()]);
                }
                loop
                    invariant
                        pos < cur <= s@.len(),
                        acc@.len() >= 1,
                        parse_ty_spec(s@, pos as int) == tuple_rest_spec(
                            s@,
                            cur as int,
                            models_of(acc@),
                        ),
                    decreases s@.len() - cur,
                {
                    if cur >= s.len() {
                        return None;
                    }
                    let cc = s[cur];
                    if cc == ')' {
                        if acc.len() >= 2 {
                            proof {
                                let m = IdlType::Tuple(acc).model();
                                assert(m is Tuple);
                                assert(m->Tuple_0 =~= models_of(acc@));
                            }
                            return Some((IdlType::Tuple(acc), cur + 1));
                        } else {
                            return None;
                        }
                    } else if cc == ',' {
                        match parse_ty(s, cur + 1) {
                            None => {
                                return None;
                            },
                            Some((t, j2)) => {
                                proof {
                                    assert(clamp_pos(s@, cur as int + 1, j2 as int) == j2 as int);
                                    assert(models_of(acc@.push(t)) =~= models_of(acc@).push(
                                        t.model(),
                                    ));
                                }
                                acc.push(t);
                                cur = j2;
                            },
                        }
                    } else {
                        return None;
                    }
                }
            },
        }
    } else {
        let we = scan_ident(s, pos);
        if we == pos {
            None
        } else {
            let w = vec_subrange(s, pos, we);
            proof {
                assert(clamp_pos(s@, pos as int, we as int) == we as int);
            }
            if we < s.len() && s[we] == '<' {
                let is_vec = vec_eq_str(&w, "Vec");
                let is_opt = vec_eq_str(&w, "Option");
                if is_vec || is_opt {
                    proof {
                        assert(clamp_pos(s@, pos as int + 1, we as int + 1) == we as int + 1);
                    }
                    match parse_ty(s, we + 1) {
                        None => None,
                        Some((t, j)) => {
                            if j < s.len() && s[j] == '>' {
                                if is_vec {
                                    Some((IdlType::Vector(Box::new(t)), j + 1))
                                } else {
                                    Some((IdlType::Opt(Box::new(t)), j + 1))
                                }
                            } else {
                                None
                            }
                        },
                    }
                } else {
                    None
                }
            } else if vec_eq_str(&w, "bool") {
                Some((IdlType::Bool, we))
            } else if vec_eq_str(&w, "u8") {
                Some((IdlType::U8, we))
            } else if vec_eq_str(&w, "u16") {
                Some((IdlType::U16, we))
            } else if vec_eq_str(&w, "u32") {
                Some((IdlType::U32, we))
            } else if vec_eq_str(&w, "u64") {
                Some((IdlType::U64, we))
            } else if vec_eq_str(&w, "u128") {
                Some((IdlType::U128, we))
            } else if vec_eq_str(&w, "i8") {
                Some((IdlType::I8, we))
            } else if vec_eq_str(&w, "i16") {
                Some((IdlType::I16, we))
            } else if vec_eq_str(&w, "i32") {
                Some((IdlType::I32, we))
            } else if vec_eq_str(&w, "i64") {
                Some((IdlType::I64, we))
            } else if vec_eq_str(&w, "i128") {
                Some((IdlType::I128, we))
            } else if vec_eq_str(&w, "String") {
                Some((IdlType::Str, we))
            } else {
                Some((IdlType::Defined(string_from_chars(&w)), we))
            }
        }
    }
}

/// Parse a whole whitespace-free type text.
fn parse_type_chars(s: &Vec<char>) -> (r: Option<IdlType>)
    ensures
        match r {
            Some(t) => parse_type_spec(s@) == Some(t.model()),
            None => parse_type_spec(s@) is None,
        },
{
    match parse_ty(s, 0) {
        Some((t, j)) => {
            if j == s.len() {
                Some(t)
            } else {
                None
            }
        },
        None => None,
    }
}

/// Convert one rendered type expression into its canonical type: substitute
/// constant-backed array lengths, unwrap one box wrapper, and parse.
pub fn to_idl_type(ctx: &CrateContext, ty: &String) -> (r: Result<IdlType, ExtractError>)
    ensures
        match r {
            Ok(t) => resolve_type_spec(ctx.consts@, ty@) == TypeOutcome::Ty(t.model()),
            Err(e) => match e {
                ExtractError::AmbiguousConstant(n) => resolve_type_spec(ctx.consts@, ty@)
                    == TypeOutcome::Ambiguous(n@),
                ExtractError::UnresolvedType(u) => resolve_type_spec(ctx.consts@, ty@)
                    == TypeOutcome::Unparsable && u@ == ty@,
                _ => false,
            },
        },
{
    let raw = chars_of(ty.as_str());
    let s0 = strip_ws_vec(&raw);
    let after: Vec<char> = if s0.len() > 0 && s0[0] == '[' {
        match resolve_variable_array_lengths(ctx, string_from_chars(&s0)) {
            Ok(v) => chars_of(v.as_str()),
            Err(e) => {
                return Err(e);
            },
        }
    } else {
        s0
    };
    let inner: Vec<char> = if after.len() >= 5 {
        let pre = vec_subrange(&after, 0, 4);
        proof {
            assert(after@.subrange(0, 4) =~= after@.take(4));
        }
        if vec_eq_str(&pre, "Box<") && after[after.len() - 1] == '>' {
            vec_subrange(&after, 4, after.len() - 1)
        } else {
            after
        }
    } else {
        after
    };
    match parse_type_chars(&inner) {
        Some(t) => Ok(t),
        None => Err(ExtractError::UnresolvedType(ty.clone())),
    }
}


/// Law: a box-wrapped type expression resolves to the same canonical type
/// as the wrapped expression alone. The wrapped expression must not itself
/// read as a box form (unwrapping strips a single wrapper), and where it is
/// an array form, constant substitution must leave it unchanged (the
/// substitution pass only runs on expressions that begin as arrays).
pub proof fn lemma_box_unwrap_transparent(consts: Seq<ConstDecl>, b: Seq<char>, t: Seq<char>)
    requires
        strip_ws_spec(b) == "Box<"@ + strip_ws_spec(t) + ">"@,
        !(strip_ws_spec(t).len() >= 5 && strip_ws_spec(t).take(4) == "Box<"@ && strip_ws_spec(
            t,
        )[strip_ws_spec(t).len() - 1] == '>'),
        (strip_ws_spec(t).len() > 0 && strip_ws_spec(t)[0] == '[') ==> subst_spec(
            consts,
            0,
            strip_ws_spec(t),
        ) == SubstOutcome::Done(strip_ws_spec(t)),
    ensures
        resolve_type_spec(consts, b) == resolve_type_spec(consts, t),
{
    reveal_strlit("Box<");
    reveal_strlit(">");
    let sb = strip_ws_spec(b);
    let st = strip_ws_spec(t);
    assert(sb.len() == st.len() + 5);
    assert(sb[0] == 'B');
    assert(sb.take(4) =~= "Box<"@);
    assert(sb[sb.len() - 1] == '>');
    assert(box_strip_spec(sb) =~= st);
    assert(box_strip_spec(st) == st);
    assert(resolve_type_spec(consts, b) == (match parse_type_spec(st) {
        Some(m) => TypeOutcome::Ty(m),
        None => TypeOutcome::Unparsable,
    }));
    assert(resolve_type_spec(consts, t) == (match parse_type_spec(st) {
        Some(m) => TypeOutcome::Ty(m),
        None => TypeOutcome::Unparsable,
    }));
}


/// Replacing a pattern that occurs only as the text's tail keeps the
/// prefix and substitutes the tail.
proof fn lemma_replace_single_at_end(pre: Seq<char>, p: Seq<char>, r: Seq<char>)
    requires
        p.len() > 0,
        forall|q: int| 0 <= q < pre.len() ==> !match_at(pre + p, p, q),
    ensures
        replace_spec(pre + p, p, r) == pre + r,
    decreases pre.len(),
{
    let s = pre + p;
    if pre.len() == 0 {
        assert(s =~= p);
        assert(s.take(p.len() as int) =~= p);
        assert(s.skip(p.len() as int) =~= Seq::<char>::empty());
        assert(replace_spec(Seq::<char>::empty(), p, r) =~= Seq::<char>::empty());
        assert(replace_spec(s, p, r) =~= r);
        assert(pre + r =~= r);
    } else {
        assert(s.len() >= p.len());
        assert(s.take(p.len() as int) != p) by {
            if s.take(p.len() as int) == p {
                assert(s.subrange(0, p.len() as int) =~= s.take(p.len() as int));
                assert(match_at(s, p, 0));
            }
        }
        let pre1 = pre.skip(1);
        assert(s.skip(1) =~= pre1 + p);
        assert forall|q: int| 0 <= q < pre1.len() implies !match_at(pre1 + p, p, q) by {
            if match_at(pre1 + p, p, q) {
                assert(match_at(s, p, q + 1)) by {
                    assert(s.subrange(q + 1, q + 1 + p.len()) =~= (pre1 + p).subrange(
                        q,
                        q + p.len(),
                    ));
                }
            }
        }
        lemma_replace_single_at_end(pre1, p, r);
        assert(replace_spec(s, p, r) == seq![s[0]] + (pre1 + r));
        assert(seq![s[0]] + (pre1 + r) =~= pre + r);
    }
}

/// Constants in the given range leave the text unchanged when each is not
/// integer-typed or neither of its length patterns occurs in the text.
proof fn lemma_subst_skips(consts: Seq<ConstDecl>, j: int, idx: int, s: Seq<char>)
    requires
        0 <= j <= idx <= consts.len(),
        forall|k: int|
            j <= k < idx ==> !is_int_type_text((#[trigger] consts[k]).ty@) || (!contains_seq(
                strip_ws_spec(s),
                consts[k].name@ + "asusize]"@,
            ) && !contains_seq(strip_ws_spec(s), consts[k].name@ + "]"@)),
    ensures
        subst_spec(consts, j, s) == subst_spec(consts, idx, s),
    decreases idx - j,
{
    if j < idx {
        lemma_subst_skips(consts, j + 1, idx, s);
    }
}

/// Whitespace stripping leaves whitespace-free text unchanged.
proof fn lemma_strip_ws_id(s: Seq<char>)
    requires
        forall|i: int| 0 <= i < s.len() ==> !is_ws(#[trigger] s[i]),
    ensures
        strip_ws_spec(s) == s,
    decreases s.len(),
{
    if s.len() > 0 {
        lemma_strip_ws_id(s.skip(1));
        assert(seq![s[0]] + s.skip(1) =~= s);
    }
}

/// Law: an array-length expression naming a uniquely-named integer constant
/// resolves with the constant's literal value text embedded in place of the
/// symbolic name. The text is whitespace-free, the name stands in the text
/// exactly once, as the whole length token and not under a numeric cast,
/// and no other integer constant's name occurs before a closing bracket,
/// in the text or in its rewritten form.
pub proof fn lemma_array_length_substitution(consts: Seq<ConstDecl>, pre: Seq<char>, idx: int)
    requires
        0 <= idx < consts.len(),
        is_int_type_text(consts[idx].ty@),
        forall|k: int|
            0 <= k < idx ==> !is_int_type_text((#[trigger] consts[k]).ty@) || (!contains_seq(
                strip_ws_spec(pre + consts[idx].name@ + "]"@),
                consts[k].name@ + "asusize]"@,
            ) && !contains_seq(
                strip_ws_spec(pre + consts[idx].name@ + "]"@),
                consts[k].name@ + "]"@,
            )),
        forall|k: int|
            idx < k < consts.len() ==> !is_int_type_text((#[trigger] consts[k]).ty@) || (
            !contains_seq(
                strip_ws_spec(pre + (consts[idx].value@ + "]"@)),
                consts[k].name@ + "asusize]"@,
            ) && !contains_seq(
                strip_ws_spec(pre + (consts[idx].value@ + "]"@)),
                consts[k].name@ + "]"@,
            )),
        !ambiguous_with(consts, consts[idx]),
        forall|i: int|
            0 <= i < (pre + consts[idx].name@ + "]"@).len() ==> !is_ws(
                #[trigger] (pre + consts[idx].name@ + "]"@)[i],
            ),
        forall|q: int|
            0 <= q < pre.len() ==> !match_at(
                pre + (consts[idx].name@ + "]"@),
                consts[idx].name@ + "]"@,
                q,
            ),
        !contains_seq(
            strip_ws_spec(pre + consts[idx].name@ + "]"@),
            consts[idx].name@ + "asusize]"@,
        ),
    ensures
        subst_spec(consts, 0, pre + consts[idx].name@ + "]"@) == SubstOutcome::Done(
            pre + (consts[idx].value@ + "]"@),
        ),
{
    reveal_strlit("]");
    let c = consts[idx];
    let pat = c.name@ + "]"@;
    let s = pre + c.name@ + "]"@;
    assert(s =~= pre + pat);
    lemma_strip_ws_id(s);
    lemma_subst_skips(consts, 0, idx, s);
    assert(contains_seq(strip_ws_spec(s), pat)) by {
        assert(match_at(s, pat, pre.len() as int)) by {
            assert(s.subrange(pre.len() as int, pre.len() + pat.len() as int) =~= pat);
        }
    }
    lemma_replace_single_at_end(pre, pat, c.value@ + "]"@);
    let s2 = pre + (c.value@ + "]"@);
    assert(subst_spec(consts, idx, s) == subst_spec(consts, idx + 1, s2));
    lemma_subst_skips(consts, idx + 1, consts.len() as int, s2);
}

} // verus!
// The grammar of normalized (whitespace-free) type-expression text.
