use fractal::error::ConfigError;

const ALL: [ConfigError; 8] = [
    ConfigError::ZeroWidth,
    ConfigError::ZeroHeight,
    ConfigError::EmptyPalette,
    ConfigError::FrameTooLarge,
    ConfigError::LengthMismatch,
    ConfigError::MalformedPoint,
    ConfigError::UnknownFractal,
    ConfigError::UnknownFormat,
];

#[test]
fn each_error_names_the_input_and_the_expected_form() {
    assert_eq!(ConfigError::ZeroWidth.message(), "the x resolution must be a positive integer");
    assert_eq!(ConfigError::ZeroHeight.message(), "the y resolution must be a positive integer");
    assert_eq!(ConfigError::EmptyPalette.message(), "the colour map must hold at least one colour");
    assert_eq!(
        ConfigError::FrameTooLarge.message(),
        "the resolution must fit a pixel buffer in memory"
    );
    assert_eq!(
        ConfigError::LengthMismatch.message(),
        "the pixel buffer must hold three bytes for each pixel"
    );
    assert_eq!(ConfigError::MalformedPoint.message(), "a point must be written as re,im");
    assert_eq!(
        ConfigError::UnknownFractal.message(),
        "the fractal must be one of mandelbrot, julia"
    );
    assert_eq!(
        ConfigError::UnknownFormat.message(),
        "the extension must be one of png, jpeg, bmp, tiff"
    );
}

#[test]
fn no_two_errors_say_the_same() {
    for (i, first) in ALL.iter().enumerate() {
        assert!(!first.message().is_empty());
        for second in &ALL[i + 1..] {
            assert_ne!(first.message(), second.message());
        }
    }
}
