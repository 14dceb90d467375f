use fractal_show::fractal::Fractal;

#[test]
fn shader_paths() {
    assert_eq!(Fractal::Mandelbrot.fragment_shader(), "shaders/fractal_shader.wgsl");
    assert_eq!(Fractal::QuatJulia.fragment_shader(), "shaders/qjulia_shader.wgsl");
    assert_eq!(Fractal::Mandelbulb.fragment_shader(), "shaders/mandelbulb_shader.wgsl");
    assert_eq!(Fractal::MengerSponge.fragment_shader(), "shaders/sponge_shader.wgsl");
    assert_eq!(Fractal::Mandelbox.fragment_shader(), "shaders/mandelbox_shader.wgsl");
    assert_eq!(Fractal::Ifs.fragment_shader(), "shaders/ifs_shader.wgsl");
}
