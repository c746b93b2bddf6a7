//! The choice of graphics API for the platform.
use vstd::prelude::*;

verus! {

/// The operating systems that the client is built for.
#[derive(Debug, Clone, Copy, PartialEq, Eq)]
pub enum TargetOs {
    Windows,
    MacOs,
    Linux,
    Other,
}

/// The graphics APIs that the renderer can use.
#[derive(Debug, Clone, Copy, PartialEq, Eq)]
pub enum GraphicsApi {
    Dx12,
    Metal,
    Gl,
}

/// The native graphics API of each supported platform: DirectX 12 on
/// Windows, Metal on macOS, OpenGL on Linux. Other platforms are not
/// supported.
pub fn get_platform_graphics_api(os: TargetOs) -> (api: GraphicsApi)
    requires
        !(os is Other),
    ensures
        os is Windows ==> api is Dx12,
        os is MacOs ==> api is Metal,
        os is Linux ==> api is Gl,
{
    match os {
        TargetOs::Windows => GraphicsApi::Dx12,
        TargetOs::MacOs => GraphicsApi::Metal,
        _ => GraphicsApi::Gl,
    }
}

} // verus!
