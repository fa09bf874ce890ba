//! Reflection of shader interface declarations.
//!
//! The graphics server model reflects the active uniforms and attributes of a
//! program from its shader sources.  A declaration is three consecutive
//! tokens `uniform <type> <name>` (or `attribute <type> <name>`), where
//! tokens are maximal runs of bytes separated by whitespace or `;`.  A
//! declaration whose type word is not one of the known type words is ignored.

use vstd::prelude::*;

use crate::bytes::{bytes_eq, copy_bytes};
use crate::gl;

verus! {

/// Whether a byte separates tokens in shader source: space, tab, line feed,
/// carriage return or a semicolon.
pub open spec fn spec_is_delim(b: u8) -> bool {
    b == 32 || b == 9 || b == 10 || b == 13 || b == 59
}

fn is_delim(b: u8) -> (r: bool)
    ensures
        r == spec_is_delim(b),
{
    b == 32 || b == 9 || b == 10 || b == 13 || b == 59
}

/// The length of the token at the front of `s`: the number of bytes before
/// the first separator.
pub open spec fn spec_token_len(s: Seq<u8>) -> nat
    decreases s.len(),
{
    if s.len() == 0 || spec_is_delim(s[0]) {
        0
    } else {
        1 + spec_token_len(s.drop_first())
    }
}

/// The front token of `s` never has more bytes than `s` itself.
pub proof fn lemma_token_len_le(s: Seq<u8>)
    ensures
        spec_token_len(s) <= s.len(),
    decreases s.len(),
{
    if s.len() == 0 || spec_is_delim(s[0]) {
    } else {
        lemma_token_len_le(s.drop_first());
    }
}

#[via_fn]
proof fn spec_tokens_decreases(s: Seq<u8>) {
    if s.len() > 0 && !spec_is_delim(s[0]) {
        lemma_token_len_le(s);
        assert(spec_token_len(s) >= 1);
    }
}

/// The tokens of `s`: its maximal runs of non-separator bytes, in order.
pub open spec fn spec_tokens(s: Seq<u8>) -> Seq<Seq<u8>>
    decreases s.len(),
    via spec_tokens_decreases
{
    if s.len() == 0 {
        Seq::empty()
    } else if spec_is_delim(s[0]) {
        spec_tokens(s.drop_first())
    } else {
        seq![s.take(spec_token_len(s) as int)] + spec_tokens(s.skip(spec_token_len(s) as int))
    }
}

/// If the first `m` bytes of `s` are not separators and byte `m` (if any) is,
/// then the front token of `s` has exactly `m` bytes.
proof fn lemma_token_len_at(s: Seq<u8>, m: int)
    requires
        0 <= m <= s.len(),
        forall|k: int| 0 <= k < m ==> !spec_is_delim(s[k]),
        m == s.len() || spec_is_delim(s[m]),
    ensures
        spec_token_len(s) == m,
    decreases m,
{
    if m > 0 {
        assert(!spec_is_delim(s[0]));
        lemma_token_len_at(s.drop_first(), m - 1);
    }
}

/// The views of a list of owned tokens.
pub open spec fn token_views(r: Seq<Vec<u8>>) -> Seq<Seq<u8>> {
    r.map_values(|t: Vec<u8>| t@)
}

/// Splits shader source into its tokens.
pub fn tokenize(s: &[u8]) -> (r: Vec<Vec<u8>>)
    ensures
        token_views(r@) == spec_tokens(s@),
{
    let n = s.len();
    let mut r: Vec<Vec<u8>> = Vec::new();
    let mut i: usize = 0;
    proof {
        assert(s@.skip(0) =~= s@);
        assert(token_views(r@) + spec_tokens(s@) =~= spec_tokens(s@));
    }
    while i < n
        invariant
            n == s@.len(),
            i <= n,
            token_views(r@) + spec_tokens(s@.skip(i as int)) == spec_tokens(s@),
        decreases n - i,
    {
        if is_delim(s[i]) {
            proof {
                assert(s@.skip(i as int)[0] == s@[i as int]);
                assert(s@.skip(i as int).drop_first() =~= s@.skip(i + 1));
            }
            i = i + 1;
        } else {
            let start = i;
            let mut tok: Vec<u8> = Vec::new();
            while i < n && !is_delim(s[i])
                invariant
                    n == s@.len(),
                    start <= i <= n,
                    forall|k: int| start <= k < i ==> !spec_is_delim(s@[k]),
                    tok@ == s@.subrange(start as int, i as int),
                decreases n - i,
            {
                tok.push(s[i]);
                proof {
                    assert(tok@ =~= s@.subrange(start as int, i + 1));
                }
                i = i + 1;
            }
            proof {
                let suffix = s@.skip(start as int);
                assert(forall|k: int| 0 <= k < i - start ==> suffix[k] == s@[start + k]);
                if i < n {
                    assert(suffix[i - start] == s@[i as int]);
                }
                lemma_token_len_at(suffix, i - start);
                assert(suffix[0] == s@[start as int]);
                assert(suffix.take(i - start) =~= s@.subrange(start as int, i as int));
                assert(suffix.skip(i - start) =~= s@.skip(i as int));
                assert(spec_tokens(suffix) == seq![tok@] + spec_tokens(s@.skip(i as int)));
                assert(token_views(r@.push(tok)) =~= token_views(r@).push(tok@));
                assert(token_views(r@.push(tok)) + spec_tokens(s@.skip(i as int)) =~= token_views(
                    r@,
                ) + spec_tokens(suffix));
            }
            r.push(tok);
        }
    }
    proof {
        assert(s@.skip(n as int) =~= Seq::<u8>::empty());
        assert(token_views(r@) + spec_tokens(s@.skip(n as int)) =~= token_views(r@));
    }
    r
}

/// The bytes of the word `uniform`.
pub open spec fn spec_keyword_uniform() -> Seq<u8> {
    seq![117u8, 110, 105, 102, 111, 114, 109]
}

/// The bytes of the word `attribute`.
pub open spec fn spec_keyword_attribute() -> Seq<u8> {
    seq![97u8, 116, 116, 114, 105, 98, 117, 116, 101]
}

/// Returns the bytes of the word `uniform`.
pub fn keyword_uniform() -> (r: Vec<u8>)
    ensures
        r@ == spec_keyword_uniform(),
{
    let r = vec![117u8, 110, 105, 102, 111, 114, 109];
    proof {
        assert(r@ =~= spec_keyword_uniform());
    }
    r
}

/// Returns the bytes of the word `attribute`.
pub fn keyword_attribute() -> (r: Vec<u8>)
    ensures
        r@ == spec_keyword_attribute(),
{
    let r = vec![97u8, 116, 116, 114, 105, 98, 117, 116, 101];
    proof {
        assert(r@ =~= spec_keyword_attribute());
    }
    r
}

/// The type tag of a shader type word, if the word is known.
pub open spec fn spec_type_word(t: Seq<u8>) -> Option<gl::GLenum> {
    if t == seq![102u8, 108, 111, 97, 116] {  // float
        Some(gl::FLOAT)
    } else if t == seq![118u8, 101, 99, 50] {  // vec2
        Some(gl::FLOAT_VEC2)
    } else if t == seq![118u8, 101, 99, 51] {  // vec3
        Some(gl::FLOAT_VEC3)
    } else if t == seq![118u8, 101, 99, 52] {  // vec4
        Some(gl::FLOAT_VEC4)
    } else if t == seq![105u8, 110, 116] {  // int
        Some(gl::INT)
    } else if t == seq![100u8, 111, 117, 98, 108, 101] {  // double
        Some(gl::DOUBLE)
    } else if t == seq![109u8, 97, 116, 50] {  // mat2
        Some(gl::FLOAT_MAT2)
    } else if t == seq![109u8, 97, 116, 51] {  // mat3
        Some(gl::FLOAT_MAT3)
    } else if t == seq![109u8, 97, 116, 52] {  // mat4
        Some(gl::FLOAT_MAT4)
    } else if t == seq![115u8, 97, 109, 112, 108, 101, 114, 49, 68] {  // sampler1D
        Some(gl::SAMPLER_1D)
    } else if t == seq![115u8, 97, 109, 112, 108, 101, 114, 50, 68] {  // sampler2D
        Some(gl::SAMPLER_2D)
    } else if t == seq![115u8, 97, 109, 112, 108, 101, 114, 51, 68] {  // sampler3D
        Some(gl::SAMPLER_3D)
    } else {
        None
    }
}

/// Returns the type tag of a shader type word, if the word is known.
pub fn type_word(t: &[u8]) -> (r: Option<gl::GLenum>)
    ensures
        r == spec_type_word(t@),
{
    let w_float = vec![102u8, 108, 111, 97, 116];
    let w_vec2 = vec![118u8, 101, 99, 50];
    let w_vec3 = vec![118u8, 101, 99, 51];
    let w_vec4 = vec![118u8, 101, 99, 52];
    let w_int = vec![105u8, 110, 116];
    let w_double = vec![100u8, 111, 117, 98, 108, 101];
    let w_mat2 = vec![109u8, 97, 116, 50];
    let w_mat3 = vec![109u8, 97, 116, 51];
    let w_mat4 = vec![109u8, 97, 116, 52];
    let w_sampler1d = vec![115u8, 97, 109, 112, 108, 101, 114, 49, 68];
    let w_sampler2d = vec![115u8, 97, 109, 112, 108, 101, 114, 50, 68];
    let w_sampler3d = vec![115u8, 97, 109, 112, 108, 101, 114, 51, 68];
    if bytes_eq(t, w_float.as_slice()) {
        proof {
            assert(w_float@ =~= seq![102u8, 108, 111, 97, 116]);
        }
        Some(gl::FLOAT)
    } else if bytes_eq(t, w_vec2.as_slice()) {
        proof {
            assert(w_vec2@ =~= seq![118u8, 101, 99, 50]);
        }
        Some(gl::FLOAT_VEC2)
    } else if bytes_eq(t, w_vec3.as_slice()) {
        proof {
            assert(w_vec3@ =~= seq![118u8, 101, 99, 51]);
        }
        Some(gl::FLOAT_VEC3)
    } else if bytes_eq(t, w_vec4.as_slice()) {
        proof {
            assert(w_vec4@ =~= seq![118u8, 101, 99, 52]);
        }
        Some(gl::FLOAT_VEC4)
    } else if bytes_eq(t, w_int.as_slice()) {
        proof {
            assert(w_int@ =~= seq![105u8, 110, 116]);
        }
        Some(gl::INT)
    } else if bytes_eq(t, w_double.as_slice()) {
        proof {
            assert(w_double@ =~= seq![100u8, 111, 117, 98, 108, 101]);
        }
        Some(gl::DOUBLE)
    } else if bytes_eq(t, w_mat2.as_slice()) {
        proof {
            assert(w_mat2@ =~= seq![109u8, 97, 116, 50]);
        }
        Some(gl::FLOAT_MAT2)
    } else if bytes_eq(t, w_mat3.as_slice()) {
        proof {
            assert(w_mat3@ =~= seq![109u8, 97, 116, 51]);
        }
        Some(gl::FLOAT_MAT3)
    } else if bytes_eq(t, w_mat4.as_slice()) {
        proof {
            assert(w_mat4@ =~= seq![109u8, 97, 116, 52]);
        }
        Some(gl::FLOAT_MAT4)
    } else if bytes_eq(t, w_sampler1d.as_slice()) {
        proof {
            assert(w_sampler1d@ =~= seq![115u8, 97, 109, 112, 108, 101, 114, 49, 68]);
        }
        Some(gl::SAMPLER_1D)
    } else if bytes_eq(t, w_sampler2d.as_slice()) {
        proof {
            assert(w_sampler2d@ =~= seq![115u8, 97, 109, 112, 108, 101, 114, 50, 68]);
        }
        Some(gl::SAMPLER_2D)
    } else if bytes_eq(t, w_sampler3d.as_slice()) {
        proof {
            assert(w_sampler3d@ =~= seq![115u8, 97, 109, 112, 108, 101, 114, 51, 68]);
        }
        Some(gl::SAMPLER_3D)
    } else {
        proof {
            assert(w_float@ =~= seq![102u8, 108, 111, 97, 116]);
            assert(w_vec2@ =~= seq![118u8, 101, 99, 50]);
            assert(w_vec3@ =~= seq![118u8, 101, 99, 51]);
            assert(w_vec4@ =~= seq![118u8, 101, 99, 52]);
            assert(w_int@ =~= seq![105u8, 110, 116]);
            assert(w_double@ =~= seq![100u8, 111, 117, 98, 108, 101]);
            assert(w_mat2@ =~= seq![109u8, 97, 116, 50]);
            assert(w_mat3@ =~= seq![109u8, 97, 116, 51]);
            assert(w_mat4@ =~= seq![109u8, 97, 116, 52]);
            assert(w_sampler1d@ =~= seq![115u8, 97, 109, 112, 108, 101, 114, 49, 68]);
            assert(w_sampler2d@ =~= seq![115u8, 97, 109, 112, 108, 101, 114, 50, 68]);
            assert(w_sampler3d@ =~= seq![115u8, 97, 109, 112, 108, 101, 114, 51, 68]);
        }
        None
    }
}

/// The interface declarations among `toks` introduced by `keyword`: each is
/// three consecutive tokens `keyword`, a known type word, and a name.
pub open spec fn spec_scan_decls(toks: Seq<Seq<u8>>, keyword: Seq<u8>) -> Seq<(Seq<u8>, gl::GLenum)>
    decreases toks.len(),
{
    if toks.len() < 3 {
        Seq::empty()
    } else {
        match spec_type_word(toks[1]) {
            Some(g) => if toks[0] == keyword {
                seq![(toks[2], g)] + spec_scan_decls(toks.skip(3), keyword)
            } else {
                spec_scan_decls(toks.skip(1), keyword)
            },
            None => spec_scan_decls(toks.skip(1), keyword),
        }
    }
}

/// The views of a list of owned declarations.
pub open spec fn decl_views(r: Seq<(Vec<u8>, gl::GLenum)>) -> Seq<(Seq<u8>, gl::GLenum)> {
    r.map_values(|p: (Vec<u8>, gl::GLenum)| (p.0@, p.1))
}

/// The interface declarations of a shader source for a keyword: the name and
/// type tag of each `keyword <type> <name>` declaration, in source order.
pub open spec fn spec_reflect(source: Seq<u8>, keyword: Seq<u8>) -> Seq<(Seq<u8>, gl::GLenum)> {
    spec_scan_decls(spec_tokens(source), keyword)
}

/// Scans tokenized shader source for interface declarations.
fn scan_decls(toks: &Vec<Vec<u8>>, keyword: &[u8]) -> (r: Vec<(Vec<u8>, gl::GLenum)>)
    ensures
        decl_views(r@) == spec_scan_decls(token_views(toks@), keyword@),
{
    let ghost tv = token_views(toks@);
    let n = toks.len();
    let mut r: Vec<(Vec<u8>, gl::GLenum)> = Vec::new();
    let mut i: usize = 0;
    proof {
        assert(tv.skip(0) =~= tv);
        assert(decl_views(r@) + spec_scan_decls(tv, keyword@) =~= spec_scan_decls(tv, keyword@));
    }
    while n >= 3 && i <= n - 3
        invariant
            n == toks@.len(),
            tv == token_views(toks@),
            i <= n,
            decl_views(r@) + spec_scan_decls(tv.skip(i as int), keyword@) == spec_scan_decls(
                tv,
                keyword@,
            ),
        decreases n - i,
    {
        proof {
            assert(tv.skip(i as int).len() == n - i);
            assert(tv.skip(i as int)[0] == tv[i as int]);
            assert(tv.skip(i as int)[1] == tv[i + 1]);
            assert(tv.skip(i as int)[2] == tv[i + 2]);
            assert(tv[i as int] == toks@[i as int]@);
            assert(tv[i + 1] == toks@[i + 1]@);
            assert(tv[i + 2] == toks@[i + 2]@);
        }
        let kw_here = bytes_eq(toks[i].as_slice(), keyword);
        let ty_here = type_word(toks[i + 1].as_slice());
        match ty_here {
            Some(g) if kw_here => {
                let name = copy_bytes(toks[i + 2].as_slice());
                proof {
                    assert(tv.skip(i as int).skip(3) =~= tv.skip(i + 3));
                    assert(decl_views(r@.push((name, g))) =~= decl_views(r@).push((name@, g)));
                    assert(decl_views(r@.push((name, g))) + spec_scan_decls(
                        tv.skip(i + 3),
                        keyword@,
                    ) =~= decl_views(r@) + spec_scan_decls(tv.skip(i as int), keyword@));
                }
                r.push((name, g));
                i = i + 3;
            },
            _ => {
                proof {
                    assert(tv.skip(i as int).skip(1) =~= tv.skip(i + 1));
                }
                i = i + 1;
            },
        }
    }
    proof {
        assert(tv.skip(i as int).len() < 3);
        assert(decl_views(r@) + spec_scan_decls(tv.skip(i as int), keyword@) =~= decl_views(r@));
    }
    r
}

/// Reflects the interface declarations of a shader source for a keyword.
pub fn reflect(source: &[u8], keyword: &[u8]) -> (r: Vec<(Vec<u8>, gl::GLenum)>)
    ensures
        decl_views(r@) == spec_reflect(source@, keyword@),
{
    let toks = tokenize(source);
    scan_decls(&toks, keyword)
}

/// A source never splits into more tokens than it has bytes.
pub proof fn lemma_tokens_len_le(s: Seq<u8>)
    ensures
        spec_tokens(s).len() <= s.len(),
    decreases s.len(),
{
    if s.len() == 0 {
    } else if spec_is_delim(s[0]) {
        lemma_tokens_len_le(s.drop_first());
    } else {
        lemma_token_len_le(s);
        assert(spec_token_len(s) >= 1);
        lemma_tokens_len_le(s.skip(spec_token_len(s) as int));
    }
}

/// A token list never yields more declarations than it has tokens.
pub proof fn lemma_scan_decls_len_le(toks: Seq<Seq<u8>>, keyword: Seq<u8>)
    ensures
        spec_scan_decls(toks, keyword).len() <= toks.len(),
    decreases toks.len(),
{
    if toks.len() >= 3 {
        lemma_scan_decls_len_le(toks.skip(3), keyword);
        lemma_scan_decls_len_le(toks.skip(1), keyword);
    }
}

/// A source never yields more declarations than it has bytes.
pub proof fn lemma_reflect_len_le(source: Seq<u8>, keyword: Seq<u8>)
    ensures
        spec_reflect(source, keyword).len() <= source.len(),
{
    lemma_tokens_len_le(source);
    lemma_scan_decls_len_le(spec_tokens(source), keyword);
}

} // verus!
