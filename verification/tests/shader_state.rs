use glw::classify_device_error;
use glw::DeviceErrorClass;
use glw::Framebuffer;
use glw::GLContext;
use glw::HandleError;
use glw::ProgramHandle;
use glw::Shader;
use glw::ShaderError;
use glw::ShaderHandle;
use glw::Texture2D;
use glw::TextureHandle;
use glw::TextureUnit;

#[test]
fn device_error_classification() {
    assert_eq!(classify_device_error(0), DeviceErrorClass::NoError);
    assert_eq!(classify_device_error(0x0505), DeviceErrorClass::OutOfMemory);
    assert_eq!(classify_device_error(0x0502), DeviceErrorClass::Other);
}

fn program() -> (GLContext, Shader) {
    let (_gl, ctx) = GLContext::new();
    let handle = ProgramHandle::new(&ctx, 5).unwrap();
    let stage = ShaderHandle::new(&ctx, 6).unwrap();
    let shader = Shader::new(&ctx, handle, vec![stage]);
    (ctx, shader)
}

#[test]
fn program_handles_reject_zero_ids() {
    let (_gl, ctx) = GLContext::new();
    assert_eq!(ProgramHandle::new(&ctx, 0).unwrap_err(), HandleError::ZeroId);
    assert_eq!(ShaderHandle::new(&ctx, 0).unwrap_err(), HandleError::ZeroId);
}

#[test]
fn uniform_cache_resolves_each_name_once() {
    let (_ctx, mut shader) = program();
    let name = String::from("model_view");
    assert_eq!(shader.cached_uniform(&name), None);
    assert_eq!(shader.insert_uniform(name.clone(), 3).unwrap(), 3);
    assert_eq!(shader.cached_uniform(&name), Some(3));
    let other = String::from("projection");
    assert_eq!(shader.cached_uniform(&other), None);
    assert_eq!(shader.insert_uniform(other.clone(), 9).unwrap(), 9);
    assert_eq!(shader.cached_uniform(&name), Some(3));
    assert_eq!(shader.cached_uniform(&other), Some(9));
}

#[test]
fn missing_uniform_is_fatal_and_not_cached() {
    let (_ctx, mut shader) = program();
    let name = String::from("missing");
    assert_eq!(
        shader.insert_uniform(name.clone(), -1).unwrap_err(),
        ShaderError::UniformNotFound
    );
    assert_eq!(shader.cached_uniform(&name), None);
}

#[test]
fn texture_unit_ids_count_up_from_the_first_unit() {
    let unit = TextureUnit::default();
    assert_eq!(unit.glsl_id, 0);
    assert_eq!(unit.gl_id(), 0x84C0);
    let third = TextureUnit { glsl_id: 2 };
    assert_eq!(third.gl_id(), 0x84C2);
}

#[test]
fn texture_handles_reject_zero_ids() {
    let (gl, _ctx) = GLContext::new();
    assert_eq!(TextureHandle::new(&gl, 0).unwrap_err(), HandleError::ZeroId);
    let handle = TextureHandle::new(&gl, 4).unwrap();
    let texture = Texture2D::new(&gl, handle);
    assert_eq!(texture.handle.gl_id, 4);
}

#[test]
fn buffer_texture_wraps_its_buffer() {
    let (gl, mut ctx) = GLContext::new();
    let buffer_handle = glw::BufferHandle::new(&gl, 8).unwrap();
    let buffer = glw::GLBuffer::new(&gl, &mut ctx, buffer_handle, 4, 4);
    let handle = TextureHandle::new(&gl, 9).unwrap();
    let texture = glw::BufferTexture::new(&gl, handle, buffer);
    assert_eq!(texture.handle.gl_id, 9);
    assert_eq!(texture.buffer.elem_size, 4);
}

#[test]
fn framebuffer_keeps_its_id() {
    let (_gl, ctx) = GLContext::new();
    let fb = Framebuffer::new(&ctx, 0);
    assert_eq!(fb.gl_id, 0);
    let fb2 = Framebuffer::new(&ctx, 11);
    assert_eq!(fb2.gl_id, 11);
}
