//! Compiled shader programs and their uniform-location cache.
//!
//! Compiling and linking happen on the device and are consumed here as an
//! opaque compiled program: a program handle, the handles of its compiled
//! stages, and a cache of resolved uniform locations.  The cache is the
//! verified part: a name is looked up on the device at most once, a missing
//! uniform is fatal, and a cached name always resolves to the location the
//! device first reported for it.

use vstd::prelude::*;

use crate::gl_context::GLContext;
use crate::vertex_buffer::HandleError;

verus! {

/// A fatal shader resolution error: the bound program has no uniform of the
/// requested name.  The unverified layer terminates on it.
#[derive(Clone, Copy, PartialEq, Eq, Structural, Debug)]
pub enum ShaderError {
    /// The device reported no uniform of this name in the program.
    UniformNotFound,
}

/// Owns one device program object.  Exactly one owner ever deletes a given
/// device id, when this handle's owner reaches its end of life.
#[derive(Debug)]
pub struct ProgramHandle {
    /// The device id of the program object.
    pub gl_id: u32,
}

impl ProgramHandle {
    /// Wraps the id a device "create program" call produced.  The id zero
    /// signals allocation failure and is rejected.
    pub fn new(_gl: &GLContext, gl_id: u32) -> (r: Result<ProgramHandle, HandleError>)
        ensures
            r matches Ok(h) ==> h.gl_id == gl_id && gl_id != 0,
            r is Err <==> gl_id == 0,
    {
        if gl_id == 0 {
            Err(HandleError::ZeroId)
        } else {
            Ok(ProgramHandle { gl_id })
        }
    }
}

/// Owns one device shader-stage object.  Exactly one owner ever deletes a
/// given device id, when this handle's owner reaches its end of life.
#[derive(Debug)]
pub struct ShaderHandle {
    /// The device id of the shader-stage object.
    pub gl_id: u32,
}

impl ShaderHandle {
    /// Wraps the id a device "create shader" call produced.  The id zero
    /// signals allocation failure and is rejected.
    pub fn new(_gl: &GLContext, gl_id: u32) -> (r: Result<ShaderHandle, HandleError>)
        ensures
            r matches Ok(h) ==> h.gl_id == gl_id && gl_id != 0,
            r is Err <==> gl_id == 0,
    {
        if gl_id == 0 {
            Err(HandleError::ZeroId)
        } else {
            Ok(ShaderHandle { gl_id })
        }
    }
}

/// The location the cache associates with `name`: the location of the first
/// entry carrying that name, if any.
pub open spec fn uniform_lookup(u: Seq<(String, i32)>, name: Seq<char>) -> Option<i32>
    decreases u.len(),
{
    if u.len() == 0 {
        None
    } else if u[0].0@ == name {
        Some(u[0].1)
    } else {
        uniform_lookup(u.drop_first(), name)
    }
}

/// Skipping entries whose names all differ from `name` does not change what
/// the lookup finds.
proof fn lemma_uniform_lookup_skip(u: Seq<(String, i32)>, name: Seq<char>, j: int)
    requires
        0 <= j <= u.len(),
        forall|t: int| 0 <= t < j ==> (#[trigger] u[t]).0@ != name,
    ensures
        uniform_lookup(u, name) == uniform_lookup(u.skip(j), name),
    decreases j,
{
    if j > 0 {
        assert(u.skip(1).skip(j - 1) =~= u.skip(j));
        lemma_uniform_lookup_skip(u.skip(1), name, j - 1);
        assert(u.drop_first() =~= u.skip(1));
    } else {
        assert(u.skip(0) =~= u);
    }
}

/// A name the lookup does not find appears in no entry.
proof fn lemma_uniform_lookup_none(u: Seq<(String, i32)>, name: Seq<char>)
    requires
        uniform_lookup(u, name) is None,
    ensures
        forall|t: int| 0 <= t < u.len() ==> (#[trigger] u[t]).0@ != name,
    decreases u.len(),
{
    if u.len() > 0 {
        assert(u[0].0@ != name);
        lemma_uniform_lookup_none(u.drop_first(), name);
        assert(forall|t: int|
            1 <= t < u.len() ==> u[t] == (#[trigger] u.drop_first()[t - 1]));
        assert(forall|t: int|
            1 <= t < u.len() ==> (#[trigger] u[t]).0@ == u.drop_first()[t - 1].0@ && u.drop_first()[
                t - 1
            ].0@ != name);
    }
}

/// A compiled, linked shader program: its program handle, the handles of its
/// compiled stages, and the uniform locations resolved so far.
///
/// Compilation and linking are device work; the program arrives here already
/// linked.  The uniform cache grows one entry per distinct name, so each
/// name costs at most one device lookup.
pub struct Shader {
    /// Owns the device program object.
    pub handle: ProgramHandle,
    /// Owns the compiled stage objects attached to the program.
    pub components: Vec<ShaderHandle>,
    /// Uniform locations resolved so far, in resolution order.
    pub uniforms: Vec<(String, i32)>,
}

impl Shader {
    /// Well-formedness: no name is cached twice.
    pub open spec fn wf(self) -> bool {
        forall|i: int, j: int|
            0 <= i < j < self.uniforms@.len() ==> (#[trigger] self.uniforms@[i]).0@ != (
            #[trigger] self.uniforms@[j]).0@
    }

    /// Assembles a program from its linked handle and compiled stages, with
    /// an empty uniform cache.
    pub fn new(_gl: &GLContext, handle: ProgramHandle, components: Vec<ShaderHandle>) -> (r:
        Shader)
        ensures
            r.wf(),
            r.handle == handle,
            r.components == components,
            r.uniforms@ =~= Seq::<(String, i32)>::empty(),
    {
        Shader { handle, components, uniforms: Vec::new() }
    }

    /// The cached location of `name`, if that uniform was resolved before.
    pub fn cached_uniform(&self, name: &String) -> (r: Option<i32>)
        ensures
            r == uniform_lookup(self.uniforms@, name@),
    {
        let mut j: usize = 0;
        while j < self.uniforms.len()
            invariant
                j <= self.uniforms@.len(),
                forall|t: int| 0 <= t < j ==> (#[trigger] self.uniforms@[t]).0@ != name@,
            decreases self.uniforms@.len() - j,
        {
            if self.uniforms[j].0 == *name {
                proof {
                    lemma_uniform_lookup_skip(self.uniforms@, name@, j as int);
                    assert(self.uniforms@.skip(j as int)[0] == self.uniforms@[j as int]);
                }
                return Some(self.uniforms[j].1);
            }
            j += 1;
        }
        proof {
            lemma_uniform_lookup_skip(self.uniforms@, name@, self.uniforms@.len() as int);
            assert(self.uniforms@.skip(self.uniforms@.len() as int) =~= Seq::<(
                String,
                i32,
            )>::empty());
        }
        None
    }

    /// Records the location the device resolved for `name`.  Call it only on
    /// a cache miss.  The device reports a missing uniform with a negative
    /// sentinel; that is a caller bug — the name does not exist in the
    /// program — reported as an error the caller must treat as fatal, and
    /// nothing is cached then.
    pub fn insert_uniform(&mut self, name: String, location: i32) -> (r: Result<i32, ShaderError>)
        requires
            old(self).wf(),
            uniform_lookup(old(self).uniforms@, name@) is None,
        ensures
            final(self).wf(),
            final(self).handle == old(self).handle,
            final(self).components == old(self).components,
            r is Err <==> location < 0,
            r is Err ==> r == Err::<i32, ShaderError>(ShaderError::UniformNotFound) && final(self).uniforms@ == old(self).uniforms@,
            r is Ok ==> r == Ok::<i32, ShaderError>(location) && final(self).uniforms@ == old(self).uniforms@.push((name, location)) && uniform_lookup(final(self).uniforms@, name@)
                == Some(location),
    {
        if location < 0 {
            return Err(ShaderError::UniformNotFound);
        }
        proof {
            lemma_uniform_lookup_none(self.uniforms@, name@);
        }
        let ghost pre = self.uniforms@;
        self.uniforms.push((name, location));
        proof {
            let post = self.uniforms@;
            assert(forall|t: int| 0 <= t < pre.len() ==> post[t] == (#[trigger] pre[t]));
            lemma_uniform_lookup_skip(post, post[pre.len() as int].0@, pre.len() as int);
            assert(post.skip(pre.len() as int)[0] == post[pre.len() as int]);
        }
        Ok(location)
    }
}

} // verus!
