//! The demo configuration enums, their shader subroutine names, and the
//! Fibonacci helper.

use rust_fractal_lab::args::{ColorScheme, JuliaArgs, JuliaFunction};
use rust_fractal_lab::fibo::fibo;

#[test]
fn julia_subroutine_names() {
    assert_eq!(JuliaFunction::Cos.subroutine_name(), "FCos");
    assert_eq!(JuliaFunction::Rabbit.subroutine_name(), "FRabbit");
    assert_eq!(JuliaFunction::Snowflakes.subroutine_name(), "FSnowflakes");
    assert_eq!(JuliaFunction::Ekg.subroutine_name(), "FEkg");
}

#[test]
fn default_julia_function_is_rabbit() {
    assert_eq!(JuliaFunction::default(), JuliaFunction::Rabbit);
}

#[test]
fn color_scheme_subroutine_names() {
    assert_eq!(ColorScheme::Inferno.subroutine_name(), "ColorMapInferno");
    assert_eq!(ColorScheme::Turbo.subroutine_name(), "ColorMapTurbo");
}

#[test]
fn julia_args_carry_their_choices() {
    let args = JuliaArgs { julia_function: JuliaFunction::Dragon, color_scheme: ColorScheme::Magma };
    assert_eq!(args.julia_function.subroutine_name(), "FDragon");
    assert_eq!(args.color_scheme.subroutine_name(), "ColorMapMagma");
}

#[test]
fn fibonacci_values() {
    assert_eq!(fibo(0), 0);
    assert_eq!(fibo(1), 1);
    assert_eq!(fibo(2), 1);
    assert_eq!(fibo(10), 55);
    assert_eq!(fibo(50), 12_586_269_025);
    assert_eq!(fibo(92), 7_540_113_804_746_346_429);
}
