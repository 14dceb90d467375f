//! The fractals of the show and the fragment shader that draws each.

use vstd::prelude::*;

verus! {

/// One fractal of the show.
#[derive(Clone, Copy, Debug, PartialEq, Eq, Structural)]
pub enum Fractal {
    Mandelbrot,
    QuatJulia,
    Mandelbulb,
    MengerSponge,
    Mandelbox,
    Ifs,
}

/// The asset path of the shader that draws a fractal.
pub open spec fn shader_path(f: Fractal) -> Seq<char> {
    match f {
        Fractal::Mandelbrot => "shaders/fractal_shader.wgsl"@,
        Fractal::QuatJulia => "shaders/qjulia_shader.wgsl"@,
        Fractal::Mandelbulb => "shaders/mandelbulb_shader.wgsl"@,
        Fractal::MengerSponge => "shaders/sponge_shader.wgsl"@,
        Fractal::Mandelbox => "shaders/mandelbox_shader.wgsl"@,
        Fractal::Ifs => "shaders/ifs_shader.wgsl"@,
    }
}

impl Fractal {
    /// The asset path of the fragment shader of this fractal.
    pub fn fragment_shader(self) -> (path: &'static str)
        ensures
            path@ == shader_path(self),
    {
        match self {
            Fractal::Mandelbrot => "shaders/fractal_shader.wgsl",
            Fractal::QuatJulia => "shaders/qjulia_shader.wgsl",
            Fractal::Mandelbulb => "shaders/mandelbulb_shader.wgsl",
            Fractal::MengerSponge => "shaders/sponge_shader.wgsl",
            Fractal::Mandelbox => "shaders/mandelbox_shader.wgsl",
            Fractal::Ifs => "shaders/ifs_shader.wgsl",
        }
    }
}

} // verus!
