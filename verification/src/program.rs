//! Shader programs and their uniform values.

use vstd::prelude::*;
use vstd::string::StringSliceAdditionalSpecFns;

use crate::bytes::bytes_eq;
use crate::bytes::copy_bytes;
use crate::data_types::UniformValue;
use crate::display::Display;
use crate::gl;
use crate::gpu::UniformDecl;

verus! {

/// Why a uniform could not be set.
#[derive(Clone, Copy, PartialEq, Eq, Structural, Debug)]
pub enum UniformError {
    /// The value's type tag disagrees with the uniform's declared type.
    TypeMismatch,
    /// A texture was bound to a uniform that is not a sampler.
    NotSampler,
}

/// The shared identity of a linked program: its object name, the shader
/// objects it keeps alive, and its reflected uniform table.
pub struct ProgramImpl {
    /// The program object name.
    pub id: u32,
    /// The shader objects linked into the program, held alive by it.
    pub shaders: Vec<u32>,
    /// The reflected uniforms: location, type and size of each, by name.
    pub uniforms: Vec<UniformDecl>,
}

/// A combination of shaders linked together.
pub struct Program {
    /// The shared identity of the program.
    pub program: ProgramImpl,
}

/// The location and declared type of the first reflected uniform with the
/// given name.
pub open spec fn spec_uniform_lookup(t: Seq<UniformDecl>, name: Seq<u8>) -> Option<(i32, gl::GLenum)>
    decreases t.len(),
{
    if t.len() == 0 {
        None
    } else if t[0].name@ == name {
        Some((t[0].location, t[0].gltype))
    } else {
        spec_uniform_lookup(t.drop_first(), name)
    }
}

/// Looks up a uniform by name in a reflected table.
pub fn uniform_lookup(t: &Vec<UniformDecl>, name: &[u8]) -> (r: Option<(i32, gl::GLenum)>)
    ensures
        r == spec_uniform_lookup(t@, name@),
{
    let n = t.len();
    let mut i: usize = 0;
    proof {
        assert(t@.skip(0) =~= t@);
    }
    while i < n
        invariant
            n == t@.len(),
            i <= n,
            spec_uniform_lookup(t@, name@) == spec_uniform_lookup(t@.skip(i as int), name@),
        decreases n - i,
    {
        proof {
            assert(t@.skip(i as int)[0] == t@[i as int]);
        }
        if bytes_eq(t[i].name.as_slice(), name) {
            return Some((t[i].location, t[i].gltype));
        }
        proof {
            assert(t@.skip(i as int).drop_first() =~= t@.skip(i + 1));
        }
        i = i + 1;
    }
    proof {
        assert(t@.skip(n as int).len() == 0);
    }
    None
}

/// The stored value at a location: its type tag and byte blob.
pub open spec fn spec_value_lookup(vals: Seq<(i32, gl::GLenum, Vec<u8>)>, loc: i32) -> Option<
    (gl::GLenum, Seq<u8>),
>
    decreases vals.len(),
{
    if vals.len() == 0 {
        None
    } else if vals[0].0 == loc {
        Some((vals[0].1, vals[0].2@))
    } else {
        spec_value_lookup(vals.drop_first(), loc)
    }
}

/// The texture bound at a location.
pub open spec fn spec_texture_lookup(ts: Seq<(i32, u32)>, loc: i32) -> Option<u32>
    decreases ts.len(),
{
    if ts.len() == 0 {
        None
    } else if ts[0].0 == loc {
        Some(ts[0].1)
    } else {
        spec_texture_lookup(ts.drop_first(), loc)
    }
}

/// A program which stores values of uniforms: a snapshot of scalar and
/// matrix values and texture bindings, keyed by reflected location.
pub struct ProgramUniforms {
    /// The program object name this value set belongs to.
    pub program: u32,
    /// The reflected uniform table of the program.
    pub uniforms: Vec<UniformDecl>,
    /// The stored values: location, type tag and byte blob of each.
    pub values: Vec<(i32, gl::GLenum, Vec<u8>)>,
    /// The stored texture bindings: location and texture name of each.
    pub textures: Vec<(i32, u32)>,
}

impl ProgramUniforms {
    /// Stored values and bindings are keyed uniquely by location.
    pub open spec fn wf(self) -> bool {
        &&& forall|i: int, j: int|
            0 <= i < j < self.values@.len() ==> (#[trigger] self.values@[i]).0 != (
            #[trigger] self.values@[j]).0
        &&& forall|i: int, j: int|
            0 <= i < j < self.textures@.len() ==> (#[trigger] self.textures@[i]).0 != (
            #[trigger] self.textures@[j]).0
    }

    /// Modifies the value of a uniform of the program.
    ///
    /// `uniform_name` must be the name of a uniform in the program.
    /// Nothing happens if the program doesn't contain a uniform with this
    /// name.  However the call fails if the type of the value doesn't match
    /// the type declared by the shader source: the two outcomes are
    /// deliberately distinct.  On success the value's bytes are stored as
    /// they are, keyed by the uniform's location, overwriting any previous
    /// value at that location.
    pub fn set_value<T: UniformValue>(&mut self, uniform_name: &str, value: T) -> (r: Result<
        (),
        UniformError,
    >)
        requires
            old(self).wf(),
        ensures
            final(self).wf(),
            final(self).program == old(self).program,
            final(self).uniforms == old(self).uniforms,
            final(self).textures == old(self).textures,
            spec_uniform_lookup(old(self).uniforms@, uniform_name.spec_bytes()) is None ==> (r
                is Ok && *final(self) == *old(self)),
            spec_uniform_lookup(old(self).uniforms@, uniform_name.spec_bytes()) matches Some(
                (loc, gt),
            ) ==> (gt != T::spec_gl_type() ==> ((r matches Err(e) && e
                == UniformError::TypeMismatch) && *final(self) == *old(self))),
            spec_uniform_lookup(old(self).uniforms@, uniform_name.spec_bytes()) matches Some(
                (loc, gt),
            ) ==> (gt == T::spec_gl_type() ==> {
                &&& r is Ok
                &&& spec_value_lookup(final(self).values@, loc) == Some(
                    (gt, value.spec_to_bytes()),
                )
                &&& forall|l2: i32|
                    l2 != loc ==> spec_value_lookup(final(self).values@, l2) == spec_value_lookup(
                        old(self).values@,
                        l2,
                    )
                &&& final(self).values@.len() <= old(self).values@.len() + 1
            }),
    {
        let looked = uniform_lookup(&self.uniforms, uniform_name.as_bytes());
        let (location, gltype) = match looked {
            Some(lg) => lg,
            None => {
                return Ok(());
            },
        };
        if gltype != value.get_gl_type() {
            return Err(UniformError::TypeMismatch);
        }
        let data = value.to_byte_vec();
        store_value(&mut self.values, location, gltype, data);
        Ok(())
    }

    /// Modifies the texture bound to a uniform of the program.
    ///
    /// `uniform_name` must be the name of a uniform in the program.
    /// Nothing happens if the program doesn't contain a uniform with this
    /// name.  However the call fails if the uniform is not a sampler.  On
    /// success the binding retains one reference to the texture — so the
    /// texture outlives every draw that may still use it — and overwrites
    /// any previous binding at that location.
    pub fn set_texture(
        &mut self,
        display: &mut Display,
        uniform_name: &str,
        texture: &crate::texture::Texture,
    ) -> (r: Result<(), UniformError>)
        requires
            old(self).wf(),
            old(display).wf(),
            old(display).spec_live(texture.texture.id),
            old(display).spec_count(texture.texture.id) < u32::MAX,
        ensures
            final(self).wf(),
            final(display).wf(),
            final(self).program == old(self).program,
            final(self).uniforms == old(self).uniforms,
            final(self).values == old(self).values,
            spec_uniform_lookup(old(self).uniforms@, uniform_name.spec_bytes()) is None ==> (r
                is Ok && *final(self) == *old(self) && *final(display) == *old(display)),
            spec_uniform_lookup(old(self).uniforms@, uniform_name.spec_bytes()) matches Some(
                (loc, gt),
            ) ==> (!gl::spec_is_sampler_type(gt) ==> ((r matches Err(e) && e
                == UniformError::NotSampler) && *final(self) == *old(self) && *final(display)
                == *old(display))),
            spec_uniform_lookup(old(self).uniforms@, uniform_name.spec_bytes()) matches Some(
                (loc, gt),
            ) ==> (gl::spec_is_sampler_type(gt) ==> {
                &&& r is Ok
                &&& spec_texture_lookup(final(self).textures@, loc) == Some(texture.texture.id)
                &&& forall|l2: i32|
                    l2 != loc ==> spec_texture_lookup(final(self).textures@, l2)
                        == spec_texture_lookup(old(self).textures@, l2)
                &&& final(display).spec_live(texture.texture.id)
                &&& final(display).spec_count(texture.texture.id) == old(display).spec_count(
                    texture.texture.id,
                ) + 1
                &&& forall|oid: u32|
                    oid != texture.texture.id && #[trigger] old(display).spec_live(oid) ==> final(display).spec_live(oid) && final(display).spec_count(oid) == old(display).spec_count(
                        oid,
                    )
                &&& final(display).context == old(display).context
            }),
    {
        let looked = uniform_lookup(&self.uniforms, uniform_name.as_bytes());
        let (location, gltype) = match looked {
            Some(lg) => lg,
            None => {
                return Ok(());
            },
        };
        if !gl::is_sampler_type(gltype) {
            return Err(UniformError::NotSampler);
        }
        display.retain_resource(texture.texture.id);
        store_texture(&mut self.textures, location, texture.texture.id);
        Ok(())
    }
}

/// Stores a value at a location, overwriting any previous one.
fn store_value(vals: &mut Vec<(i32, gl::GLenum, Vec<u8>)>, loc: i32, gltype: gl::GLenum, data: Vec<
    u8,
>)
    requires
        forall|i: int, j: int|
            0 <= i < j < old(vals)@.len() ==> (#[trigger] old(vals)@[i]).0 != (#[trigger] old(vals)@[j]).0,
    ensures
        forall|i: int, j: int|
            0 <= i < j < final(vals)@.len() ==> (#[trigger] final(vals)@[i]).0 != (#[trigger] final(vals)@[j]).0,
        spec_value_lookup(final(vals)@, loc) == Some((gltype, data@)),
        forall|l2: i32|
            l2 != loc ==> spec_value_lookup(final(vals)@, l2) == spec_value_lookup(old(vals)@, l2),
        final(vals)@.len() <= old(vals)@.len() + 1,
{
    let n = vals.len();
    let mut i: usize = 0;
    while i < n
        invariant
            n == vals@.len(),
            i <= n,
            *vals == *old(vals),
            forall|a: int, b: int|
                0 <= a < b < old(vals)@.len() ==> (#[trigger] old(vals)@[a]).0 != (#[trigger] old(
                    vals,
                )@[b]).0,
            forall|k: int| 0 <= k < i ==> (#[trigger] vals@[k]).0 != loc,
        decreases n - i,
    {
        if vals[i].0 == loc {
            vals[i] = (loc, gltype, data);
            proof {
                lemma_value_lookup_update(old(vals)@, i as int, (loc, gltype, data), loc);
                assert forall|l2: i32| l2 != loc implies spec_value_lookup(vals@, l2)
                    == spec_value_lookup(old(vals)@, l2) by {
                    lemma_value_lookup_update(old(vals)@, i as int, (loc, gltype, data), l2);
                }
            }
            return ;
        }
        i = i + 1;
    }
    proof {
        lemma_value_lookup_none(vals@, loc);
        lemma_value_lookup_push(vals@, (loc, gltype, data), loc);
        assert forall|l2: i32| l2 != loc implies spec_value_lookup(
            vals@.push((loc, gltype, data)),
            l2,
        ) == spec_value_lookup(vals@, l2) by {
            lemma_value_lookup_push(vals@, (loc, gltype, data), l2);
        }
        assert forall|a: int, b: int| 0 <= a < b < vals@.push((loc, gltype, data)).len() implies (
        #[trigger] vals@.push((loc, gltype, data))[a]).0 != (#[trigger] vals@.push(
            (loc, gltype, data),
        )[b]).0 by {
            if b < vals@.len() {
                assert(vals@.push((loc, gltype, data))[a] == vals@[a]);
                assert(vals@.push((loc, gltype, data))[b] == vals@[b]);
            } else {
                assert(vals@.push((loc, gltype, data))[a] == vals@[a]);
                assert(vals@.push((loc, gltype, data))[b] == (loc, gltype, data));
            }
        }
    }
    vals.push((loc, gltype, data));
}


/// A location that no entry carries is not found.
proof fn lemma_value_lookup_none(vals: Seq<(i32, gl::GLenum, Vec<u8>)>, loc: i32)
    requires
        forall|k: int| 0 <= k < vals.len() ==> (#[trigger] vals[k]).0 != loc,
    ensures
        spec_value_lookup(vals, loc) is None,
    decreases vals.len(),
{
    if vals.len() > 0 {
        assert forall|k: int| 0 <= k < vals.drop_first().len() implies (
        #[trigger] vals.drop_first()[k]).0 != loc by {
            assert(vals.drop_first()[k] == vals[k + 1]);
        }
        lemma_value_lookup_none(vals.drop_first(), loc);
    }
}

/// A location that no entry carries is not found.
proof fn lemma_texture_lookup_none(ts: Seq<(i32, u32)>, loc: i32)
    requires
        forall|k: int| 0 <= k < ts.len() ==> (#[trigger] ts[k]).0 != loc,
    ensures
        spec_texture_lookup(ts, loc) is None,
    decreases ts.len(),
{
    if ts.len() > 0 {
        assert forall|k: int| 0 <= k < ts.drop_first().len() implies (
        #[trigger] ts.drop_first()[k]).0 != loc by {
            assert(ts.drop_first()[k] == ts[k + 1]);
        }
        lemma_texture_lookup_none(ts.drop_first(), loc);
    }
}

/// How replacing the entry at `k` (keeping its location) moves lookups.
proof fn lemma_value_lookup_update(
    vals: Seq<(i32, gl::GLenum, Vec<u8>)>,
    k: int,
    e: (i32, gl::GLenum, Vec<u8>),
    loc: i32,
)
    requires
        0 <= k < vals.len(),
        e.0 == vals[k].0,
        forall|i: int, j: int|
            0 <= i < j < vals.len() ==> (#[trigger] vals[i]).0 != (#[trigger] vals[j]).0,
        forall|i: int| 0 <= i < k ==> (#[trigger] vals[i]).0 != vals[k].0,
    ensures
        e.0 == loc ==> spec_value_lookup(vals.update(k, e), loc) == Some((e.1, e.2@)),
        e.0 != loc ==> spec_value_lookup(vals.update(k, e), loc) == spec_value_lookup(vals, loc),
    decreases vals.len(),
{
    if vals.len() > 0 {
        if k == 0 {
            assert(vals.update(k, e)[0] == e);
            assert(vals.update(k, e).drop_first() =~= vals.drop_first());
        } else {
            assert(vals.update(k, e)[0] == vals[0]);
            assert(vals.update(k, e).drop_first() =~= vals.drop_first().update(k - 1, e));
            assert forall|i: int, j: int| 0 <= i < j < vals.drop_first().len() implies (
            #[trigger] vals.drop_first()[i]).0 != (#[trigger] vals.drop_first()[j]).0 by {
                assert(vals.drop_first()[i] == vals[i + 1]);
                assert(vals.drop_first()[j] == vals[j + 1]);
            }
            assert forall|i: int| 0 <= i < k - 1 implies (#[trigger] vals.drop_first()[i]).0
                != vals.drop_first()[k - 1].0 by {
                assert(vals.drop_first()[i] == vals[i + 1]);
                assert(vals.drop_first()[k - 1] == vals[k]);
            }
            lemma_value_lookup_update(vals.drop_first(), k - 1, e, loc);
        }
    }
}

/// How appending an entry moves lookups.
proof fn lemma_value_lookup_push(
    vals: Seq<(i32, gl::GLenum, Vec<u8>)>,
    e: (i32, gl::GLenum, Vec<u8>),
    loc: i32,
)
    ensures
        spec_value_lookup(vals, loc) is Some ==> spec_value_lookup(vals.push(e), loc)
            == spec_value_lookup(vals, loc),
        spec_value_lookup(vals, loc) is None && e.0 == loc ==> spec_value_lookup(vals.push(e), loc)
            == Some((e.1, e.2@)),
        spec_value_lookup(vals, loc) is None && e.0 != loc ==> spec_value_lookup(vals.push(e), loc)
            is None,
    decreases vals.len(),
{
    if vals.len() == 0 {
        assert(vals.push(e)[0] == e);
        assert(vals.push(e).drop_first() =~= Seq::<(i32, gl::GLenum, Vec<u8>)>::empty());
        assert(spec_value_lookup(Seq::<(i32, gl::GLenum, Vec<u8>)>::empty(), loc) is None);
    } else {
        assert(vals.push(e)[0] == vals[0]);
        assert(vals.push(e).drop_first() =~= vals.drop_first().push(e));
        lemma_value_lookup_push(vals.drop_first(), e, loc);
        if vals[0].0 != loc {
            assert(spec_value_lookup(vals, loc) == spec_value_lookup(vals.drop_first(), loc));
            assert(spec_value_lookup(vals.push(e), loc) == spec_value_lookup(
                vals.drop_first().push(e),
                loc,
            ));
        }
    }
}

/// Stores a texture binding at a location, overwriting any previous one.
fn store_texture(ts: &mut Vec<(i32, u32)>, loc: i32, id: u32)
    requires
        forall|i: int, j: int|
            0 <= i < j < old(ts)@.len() ==> (#[trigger] old(ts)@[i]).0 != (#[trigger] old(ts)@[j]).0,
    ensures
        forall|i: int, j: int|
            0 <= i < j < final(ts)@.len() ==> (#[trigger] final(ts)@[i]).0 != (#[trigger] final(ts)@[j]).0,
        spec_texture_lookup(final(ts)@, loc) == Some(id),
        forall|l2: i32|
            l2 != loc ==> spec_texture_lookup(final(ts)@, l2) == spec_texture_lookup(
                old(ts)@,
                l2,
            ),
{
    let n = ts.len();
    let mut i: usize = 0;
    while i < n
        invariant
            n == ts@.len(),
            i <= n,
            *ts == *old(ts),
            forall|a: int, b: int|
                0 <= a < b < old(ts)@.len() ==> (#[trigger] old(ts)@[a]).0 != (#[trigger] old(
                    ts,
                )@[b]).0,
            forall|k: int| 0 <= k < i ==> (#[trigger] ts@[k]).0 != loc,
        decreases n - i,
    {
        if ts[i].0 == loc {
            ts[i] = (loc, id);
            proof {
                lemma_texture_lookup_update(old(ts)@, i as int, (loc, id), loc);
                assert forall|l2: i32| l2 != loc implies spec_texture_lookup(ts@, l2)
                    == spec_texture_lookup(old(ts)@, l2) by {
                    lemma_texture_lookup_update(old(ts)@, i as int, (loc, id), l2);
                }
            }
            return ;
        }
        i = i + 1;
    }
    proof {
        lemma_texture_lookup_none(ts@, loc);
        lemma_texture_lookup_push(ts@, (loc, id), loc);
        assert forall|l2: i32| l2 != loc implies spec_texture_lookup(ts@.push((loc, id)), l2)
            == spec_texture_lookup(ts@, l2) by {
            lemma_texture_lookup_push(ts@, (loc, id), l2);
        }
        assert forall|a: int, b: int| 0 <= a < b < ts@.push((loc, id)).len() implies (
        #[trigger] ts@.push((loc, id))[a]).0 != (#[trigger] ts@.push((loc, id))[b]).0 by {
            if b < ts@.len() {
                assert(ts@.push((loc, id))[a] == ts@[a]);
                assert(ts@.push((loc, id))[b] == ts@[b]);
            } else {
                assert(ts@.push((loc, id))[a] == ts@[a]);
                assert(ts@.push((loc, id))[b] == (loc, id));
            }
        }
    }
    ts.push((loc, id));
}

/// How replacing the entry at `k` (keeping its location) moves lookups.
proof fn lemma_texture_lookup_update(ts: Seq<(i32, u32)>, k: int, e: (i32, u32), loc: i32)
    requires
        0 <= k < ts.len(),
        e.0 == ts[k].0,
        forall|i: int, j: int|
            0 <= i < j < ts.len() ==> (#[trigger] ts[i]).0 != (#[trigger] ts[j]).0,
        forall|i: int| 0 <= i < k ==> (#[trigger] ts[i]).0 != ts[k].0,
    ensures
        e.0 == loc ==> spec_texture_lookup(ts.update(k, e), loc) == Some(e.1),
        e.0 != loc ==> spec_texture_lookup(ts.update(k, e), loc) == spec_texture_lookup(ts, loc),
    decreases ts.len(),
{
    if ts.len() > 0 {
        if k == 0 {
            assert(ts.update(k, e)[0] == e);
            assert(ts.update(k, e).drop_first() =~= ts.drop_first());
        } else {
            assert(ts.update(k, e)[0] == ts[0]);
            assert(ts.update(k, e).drop_first() =~= ts.drop_first().update(k - 1, e));
            assert forall|i: int, j: int| 0 <= i < j < ts.drop_first().len() implies (
            #[trigger] ts.drop_first()[i]).0 != (#[trigger] ts.drop_first()[j]).0 by {
                assert(ts.drop_first()[i] == ts[i + 1]);
                assert(ts.drop_first()[j] == ts[j + 1]);
            }
            assert forall|i: int| 0 <= i < k - 1 implies (#[trigger] ts.drop_first()[i]).0
                != ts.drop_first()[k - 1].0 by {
                assert(ts.drop_first()[i] == ts[i + 1]);
                assert(ts.drop_first()[k - 1] == ts[k]);
            }
            lemma_texture_lookup_update(ts.drop_first(), k - 1, e, loc);
        }
    }
}

/// How appending an entry moves lookups.
proof fn lemma_texture_lookup_push(ts: Seq<(i32, u32)>, e: (i32, u32), loc: i32)
    ensures
        spec_texture_lookup(ts, loc) is Some ==> spec_texture_lookup(ts.push(e), loc)
            == spec_texture_lookup(ts, loc),
        spec_texture_lookup(ts, loc) is None && e.0 == loc ==> spec_texture_lookup(ts.push(e), loc)
            == Some(e.1),
        spec_texture_lookup(ts, loc) is None && e.0 != loc ==> spec_texture_lookup(ts.push(e), loc)
            is None,
    decreases ts.len(),
{
    if ts.len() == 0 {
        assert(ts.push(e)[0] == e);
        assert(ts.push(e).drop_first() =~= Seq::<(i32, u32)>::empty());
        assert(spec_texture_lookup(Seq::<(i32, u32)>::empty(), loc) is None);
    } else {
        assert(ts.push(e)[0] == ts[0]);
        assert(ts.push(e).drop_first() =~= ts.drop_first().push(e));
        lemma_texture_lookup_push(ts.drop_first(), e, loc);
        if ts[0].0 != loc {
            assert(spec_texture_lookup(ts, loc) == spec_texture_lookup(ts.drop_first(), loc));
            assert(spec_texture_lookup(ts.push(e), loc) == spec_texture_lookup(
                ts.drop_first().push(e),
                loc,
            ));
        }
    }
}

/// Whether two reflected tables hold the same declarations.
pub open spec fn spec_decls_eq(a: Seq<UniformDecl>, b: Seq<UniformDecl>) -> bool {
    &&& a.len() == b.len()
    &&& forall|i: int|
        0 <= i < a.len() ==> (#[trigger] a[i]).name@ == b[i].name@ && a[i].location == b[i].location
            && a[i].gltype == b[i].gltype && a[i].size == b[i].size
}

/// Copies a reflected uniform table.
pub fn copy_uniform_decls(t: &Vec<UniformDecl>) -> (r: Vec<UniformDecl>)
    ensures
        spec_decls_eq(r@, t@),
{
    let n = t.len();
    let mut r: Vec<UniformDecl> = Vec::new();
    let mut i: usize = 0;
    while i < n
        invariant
            n == t@.len(),
            i <= n,
            r@.len() == i,
            forall|k: int|
                0 <= k < i ==> (#[trigger] r@[k]).name@ == t@[k].name@ && r@[k].location
                    == t@[k].location && r@[k].gltype == t@[k].gltype && r@[k].size == t@[k].size,
        decreases n - i,
    {
        let name = copy_bytes(t[i].name.as_slice());
        r.push(
            UniformDecl { name, location: t[i].location, gltype: t[i].gltype, size: t[i].size },
        );
        i = i + 1;
    }
    r
}

impl Program {
    /// Builds a new program: a group of shaders linked together.
    ///
    /// `vertex_shader`, `fragment_shader` and the optional
    /// `geometry_shader` are source code; each stage that fails to compile
    /// reports the compiler's diagnostic text without discarding the
    /// stages already compiled, and a link failure reports the linker's.
    pub fn new(
        display: &mut Display,
        vertex_shader: &str,
        fragment_shader: &str,
        geometry_shader: Option<&str>,
    ) -> (r: Result<Program, String>)
        requires
            old(display).wf(),
            old(display).context.state is Running,
            old(display).context.next_ticket + 8 <= u64::MAX,
            old(display).context.gpu.next_id + 4 <= u32::MAX,
            vertex_shader.spec_bytes().len() <= 0x2000_0000,
            fragment_shader.spec_bytes().len() <= 0x2000_0000,
            geometry_shader matches Some(g) ==> g.spec_bytes().len() <= 0x2000_0000,
        ensures
            final(display).wf(),
            final(display).context.state is Running,
            (r is Ok) <==> (vertex_shader.spec_bytes().len() > 0
                && fragment_shader.spec_bytes().len() > 0 && (geometry_shader matches Some(g)
                ==> g.spec_bytes().len() > 0)),
            r matches Err(m) ==> m@ == "shader compilation failed: empty source"@,
            r matches Ok(p) ==> {
                &&& crate::gpu::spec_is_uniform_table(
                    p.program.uniforms@,
                    crate::display::spec_sources_decls(
                        spec_source_list(
                            vertex_shader.spec_bytes(),
                            fragment_shader.spec_bytes(),
                            match geometry_shader {
                                Some(g) => Some(g.spec_bytes()),
                                None => None,
                            },
                        ),
                        crate::glsl::spec_keyword_uniform(),
                    ),
                )
                &&& crate::gpu::spec_has_object(
                    final(display).context.gpu.objects@,
                    p.program.id,
                )
                &&& crate::gpu::spec_object_of(final(display).context.gpu.objects@, p.program.id)
                    matches crate::gpu::GpuObject::Program { id: pid, attributes: at } && pid
                    == p.program.id && crate::gpu::spec_is_attr_table(
                    at@,
                    crate::display::spec_sources_decls(
                        spec_source_list(
                            vertex_shader.spec_bytes(),
                            fragment_shader.spec_bytes(),
                            match geometry_shader {
                                Some(g) => Some(g.spec_bytes()),
                                None => None,
                            },
                        ),
                        crate::glsl::spec_keyword_attribute(),
                    ),
                )
                &&& forall|i: int|
                    0 <= i < p.program.shaders@.len() ==> final(display).spec_live(
                        #[trigger] p.program.shaders@[i],
                    )
                &&& !final(display).spec_live(p.program.id)
            },
            forall|oid: u32|
                #[trigger] old(display).spec_live(oid) ==> final(display).spec_live(oid) && final(display).spec_count(oid) == old(display).spec_count(oid) && final(display).spec_kind(oid)
                    == old(display).spec_kind(oid),
            forall|oid: u32|
                #[trigger] old(display).spec_live(oid) ==> crate::gpu::spec_has_object(
                    final(display).context.gpu.objects@,
                    oid,
                ) && crate::gpu::spec_object_of(final(display).context.gpu.objects@, oid)
                    == crate::gpu::spec_object_of(old(display).context.gpu.objects@, oid),
    {
        display.build_program(vertex_shader, fragment_shader, geometry_shader)
    }

    /// Creates a new `ProgramUniforms` object: an empty set of uniform
    /// values linked to this program.
    pub fn build_uniforms(&self) -> (r: ProgramUniforms)
        ensures
            r.wf(),
            r.program == self.program.id,
            spec_decls_eq(r.uniforms@, self.program.uniforms@),
            r.values@.len() == 0,
            r.textures@.len() == 0,
    {
        ProgramUniforms {
            program: self.program.id,
            uniforms: copy_uniform_decls(&self.program.uniforms),
            values: Vec::new(),
            textures: Vec::new(),
        }
    }
}

/// The sources attached to a program, in attachment order: vertex shader,
/// then the optional geometry shader, then the fragment shader.
pub open spec fn spec_source_list(v: Seq<u8>, f: Seq<u8>, g: Option<Seq<u8>>) -> Seq<Seq<u8>> {
    match g {
        Some(gs) => seq![v, gs, f],
        None => seq![v, f],
    }
}

/// Whether two stored-value lists hold the same entries.
pub open spec fn spec_values_eq(
    a: Seq<(i32, gl::GLenum, Vec<u8>)>,
    b: Seq<(i32, gl::GLenum, Vec<u8>)>,
) -> bool {
    &&& a.len() == b.len()
    &&& forall|i: int|
        0 <= i < a.len() ==> (#[trigger] a[i]).0 == b[i].0 && a[i].1 == b[i].1 && a[i].2@
            == b[i].2@
}

/// Copies the stored values of a uniform set, byte for byte.
pub fn copy_values(v: &Vec<(i32, gl::GLenum, Vec<u8>)>) -> (r: Vec<(i32, gl::GLenum, Vec<u8>)>)
    ensures
        spec_values_eq(r@, v@),
{
    let n = v.len();
    let mut r: Vec<(i32, gl::GLenum, Vec<u8>)> = Vec::new();
    let mut i: usize = 0;
    while i < n
        invariant
            n == v@.len(),
            i <= n,
            r@.len() == i,
            forall|k: int|
                0 <= k < i ==> (#[trigger] r@[k]).0 == v@[k].0 && r@[k].1 == v@[k].1 && r@[k].2@
                    == v@[k].2@,
        decreases n - i,
    {
        let blob = copy_bytes(v[i].2.as_slice());
        r.push((v[i].0, v[i].1, blob));
        i = i + 1;
    }
    r
}

/// Copies the texture bindings of a uniform set.
pub fn copy_texture_bindings(v: &Vec<(i32, u32)>) -> (r: Vec<(i32, u32)>)
    ensures
        r@ == v@,
{
    let n = v.len();
    let mut r: Vec<(i32, u32)> = Vec::new();
    let mut i: usize = 0;
    while i < n
        invariant
            n == v@.len(),
            i <= n,
            r@ == v@.take(i as int),
        decreases n - i,
    {
        r.push(v[i]);
        proof {
            assert(r@ =~= v@.take(i + 1));
        }
        i = i + 1;
    }
    proof {
        assert(v@.take(n as int) =~= v@);
    }
    r
}

} // verus!
