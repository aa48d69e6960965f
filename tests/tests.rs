use colorthis::path::{extract_sep, is_end_of_stream};
use colorthis::{
    extract_path, parse_color, rgb, rgba, rgbaf, rgbf, u8_to_i64, Channel, ColorError, ColorResult,
    Config, Delim, Emission, ErrorKind, Field, Frac, PathSep, Posture, Shape, Tok,
};
use proc_macro2::{Delimiter, Spacing, TokenStream, TokenTree};
use std::str::FromStr;

fn convert(stream: TokenStream, next: &mut usize) -> Vec<Tok> {
    let mut out = Vec::new();
    for tt in stream {
        let pos = *next;
        *next += 1;
        out.push(match tt {
            TokenTree::Ident(i) => Tok::Ident { name: i.to_string(), pos },
            TokenTree::Punct(p) => Tok::Punct {
                ch: p.as_char(),
                joint: p.spacing() == Spacing::Joint,
                pos,
            },
            TokenTree::Literal(l) => Tok::Lit { text: l.to_string(), pos },
            TokenTree::Group(g) => {
                let delim = match g.delimiter() {
                    Delimiter::Parenthesis => Delim::Paren,
                    Delimiter::Bracket => Delim::Bracket,
                    Delimiter::Brace => Delim::Brace,
                    Delimiter::None => Delim::Invisible,
                };
                Tok::Group { delim, inner: convert(g.stream(), next), pos }
            }
        });
    }
    out
}

fn toks(src: &str) -> Vec<Tok> {
    let mut next = 0;
    convert(TokenStream::from_str(src).unwrap(), &mut next)
}

fn ints(r: Result<Emission, ColorError>) -> Vec<i64> {
    let em = r.unwrap();
    em.values
        .iter()
        .map(|c| match c {
            Channel::Int(v) => *v,
            other => panic!("not an integer channel: {:?}", other),
        })
        .collect()
}

fn floats(r: Result<Emission, ColorError>) -> Vec<f32> {
    let em = r.unwrap();
    em.values
        .iter()
        .map(|c| match c {
            Channel::Float(f) => (f.num as f64 / f.den as f64) as f32,
            other => panic!("not a float channel: {:?}", other),
        })
        .collect()
}

fn render(t: &Tok) -> String {
    match t {
        Tok::Ident { name, .. } => name.clone(),
        Tok::Punct { ch, .. } => ch.to_string(),
        Tok::Lit { text, .. } => text.clone(),
        Tok::Group { delim, inner, .. } => {
            let body: String = inner.iter().map(render).collect();
            match delim {
                Delim::Paren => format!("({})", body),
                Delim::Bracket => format!("[{}]", body),
                Delim::Brace => format!("{{{}}}", body),
                Delim::Invisible => body,
            }
        }
    }
}

/// The text of each expression channel, and the integer or float of the others.
fn exprs(src: &str, r: Result<Emission, ColorError>) -> Vec<String> {
    let input = toks(src);
    let split = extract_path(&input).unwrap();
    let inner = match &input[split.color] {
        Tok::Group { inner, .. } => inner,
        _ => panic!("no group"),
    };
    r.unwrap()
        .values
        .iter()
        .map(|c| match c {
            Channel::Expr(e) => inner[e.start..e.end].iter().map(render).collect(),
            Channel::Int(v) => v.to_string(),
            Channel::Float(f) => format!("{}/{}", f.num, f.den),
        })
        .collect()
}

fn cfg() -> Config {
    Config::default()
}

const F1: f32 = 1.0 / 255.0;
const F2: f32 = 2.0 / 255.0;
const F3: f32 = 3.0 / 255.0;
const F4: f32 = 4.0 / 255.0;

#[test]
pub fn test_path_extractor() {
    let input = toks("Color, [1234, 567]");
    let split = extract_path(&input).unwrap();
    assert_eq!(split.path_end, 1);
    assert!(matches!(&input[0], Tok::Ident { name, .. } if name == "Color"));
    assert!(matches!(input[split.color], Tok::Group { .. }));

    let input = toks("rgba::Color, 0xFFFFFF");
    let split = extract_path(&input).unwrap();
    let path: String = input[..split.path_end].iter().map(render).collect();
    assert_eq!(path, "rgba::Color");
    assert!(matches!(input[split.color], Tok::Lit { .. }));

    let input = toks("::some::path::func, Red");
    let split = extract_path(&input).unwrap();
    let path: String = input[..split.path_end].iter().map(render).collect();
    assert_eq!(path, "::some::path::func");
    assert!(matches!(input[split.color], Tok::Ident { .. }));
}

#[test]
pub fn test_int3() {
    let c = cfg();
    assert_eq!(ints(rgb(&toks("Color3::new, [1, 2, 3]"), c)), vec![1, 2, 3]);
    let src = "Color3::new, (2+3, 4*5, 6u8.pow(2))";
    assert_eq!(exprs(src, rgb(&toks(src), c)), vec!["2+3", "4*5", "6u8.pow(2)"]);
    assert_eq!(ints(rgb(&toks("Color3::new, [0.0, 1.0, 1.0]"), c)), vec![0, 255, 255]);
    assert_eq!(ints(rgb(&toks("Color3::new, 0x010203"), c)), vec![1, 2, 3]);
    assert_eq!(ints(rgb(&toks("Color3::new, \"010203\""), c)), vec![1, 2, 3]);
    assert_eq!(ints(rgb(&toks("Color3::new, \"#010203\""), c)), vec![1, 2, 3]);
    assert_eq!(ints(rgb(&toks("Color3::new, [75; 3]"), c)), vec![75, 75, 75]);
    assert_eq!(ints(rgb(&toks("Color3::new, Transparent"), c)), vec![0, 0, 0]);
    assert_eq!(ints(rgb(&toks("Color3::new, Black"), c)), vec![0, 0, 0]);
    assert_eq!(ints(rgb(&toks("Color3::new, White"), c)), vec![255, 255, 255]);
    assert_eq!(ints(rgb(&toks("Color3::new, Red"), c)), vec![255, 0, 0]);
    assert_eq!(ints(rgb(&toks("Color3::new, Green"), c)), vec![0, 128, 0]);
    assert_eq!(ints(rgb(&toks("Color3::new, Cyan"), c)), vec![0, 255, 255]);
    assert_eq!(ints(rgb(&toks("Color3::new, Gray700"), c)), vec![55, 65, 81]);
    assert_eq!(ints(rgb(&toks("Color3::new, Indigo50"), c)), vec![238, 242, 255]);
    assert_eq!(ints(rgb(&toks("Color3::new, Fuchsia300"), c)), vec![240, 171, 252]);
    assert_eq!(ints(rgb(&toks("Color3::new, Lime950"), c)), vec![26, 46, 5]);
    assert_eq!(ints(rgb(&toks("Color3::new, Amber500"), c)), vec![245, 158, 11]);
}

#[test]
pub fn test_int() {
    let c = cfg();
    assert_eq!(ints(rgba(&toks("Color::new, [1, 2, 3]"), c)), vec![1, 2, 3, 255]);
    assert_eq!(ints(rgba(&toks("Color::new, [1, 2, 3, 4]"), c)), vec![1, 2, 3, 4]);
    let src = "Color::new, (2+3, 4*5, 6u8.pow(2))";
    assert_eq!(exprs(src, rgba(&toks(src), c)), vec!["2+3", "4*5", "6u8.pow(2)", "255"]);
    let src = "Color::new, (2+3, 4*5, 6u8.pow(2), u8::MIN)";
    assert_eq!(exprs(src, rgba(&toks(src), c)), vec!["2+3", "4*5", "6u8.pow(2)", "u8::MIN"]);
    assert_eq!(ints(rgba(&toks("Color::new, [0.0, 1.0, 1.0]"), c)), vec![0, 255, 255, 255]);
    assert_eq!(ints(rgba(&toks("Color::new, [0.0, 1.0, 1.0, 0.0]"), c)), vec![0, 255, 255, 0]);
    assert_eq!(ints(rgba(&toks("Color::new, 0x010203"), c)), vec![1, 2, 3, 255]);
    assert_eq!(ints(rgba(&toks("Color::new, 0x01020304"), c)), vec![1, 2, 3, 4]);
    assert_eq!(ints(rgba(&toks("Color::new, \"010203\""), c)), vec![1, 2, 3, 255]);
    assert_eq!(ints(rgba(&toks("Color::new, \"01020304\""), c)), vec![1, 2, 3, 4]);
    assert_eq!(ints(rgba(&toks("Color::new, \"#010203\""), c)), vec![1, 2, 3, 255]);
    assert_eq!(ints(rgba(&toks("Color::new, \"#01020304\""), c)), vec![1, 2, 3, 4]);
    assert_eq!(ints(rgba(&toks("Color::new, [4; 3]"), c)), vec![4, 4, 4, 255]);
    assert_eq!(ints(rgba(&toks("Color::new, [4; 3, 12]"), c)), vec![4, 4, 4, 12]);
    assert_eq!(ints(rgba(&toks("Color::new, [4; 4]"), c)), vec![4, 4, 4, 4]);
    assert_eq!(ints(rgba(&toks("Color::new, Transparent"), c)), vec![0, 0, 0, 0]);
    assert_eq!(ints(rgba(&toks("Color::new, Black"), c)), vec![0, 0, 0, 255]);
    assert_eq!(ints(rgba(&toks("Color::new, White"), c)), vec![255, 255, 255, 255]);
    assert_eq!(ints(rgba(&toks("Color::new, Red"), c)), vec![255, 0, 0, 255]);
    assert_eq!(ints(rgba(&toks("Color::new, Green"), c)), vec![0, 128, 0, 255]);
    assert_eq!(ints(rgba(&toks("Color::new, Cyan"), c)), vec![0, 255, 255, 255]);
    assert_eq!(ints(rgba(&toks("Color::new, Gray700"), c)), vec![55, 65, 81, 255]);
    assert_eq!(ints(rgba(&toks("Color::new, Indigo50"), c)), vec![238, 242, 255, 255]);
    assert_eq!(ints(rgba(&toks("Color::new, Fuchsia300"), c)), vec![240, 171, 252, 255]);
    assert_eq!(ints(rgba(&toks("Color::new, Lime950"), c)), vec![26, 46, 5, 255]);
    assert_eq!(ints(rgba(&toks("Color::new, Amber500"), c)), vec![245, 158, 11, 255]);
}

#[test]
pub fn test_float3() {
    let c = cfg();
    assert_eq!(floats(rgbf(&toks("Color3F::new, [1, 2, 3]"), c)), vec![F1, F2, F3]);
    assert_eq!(
        floats(rgbf(&toks("Color3F::new, [0.14, 0.56, 0.66]"), c)),
        vec![0.14, 0.56, 0.66]
    );
    let src = "Color3F::new, (0.0f32.sin(), 0.0f32.cos(), 0.0f32.signum())";
    assert_eq!(
        exprs(src, rgbf(&toks(src), c)),
        vec!["0.0f32.sin()", "0.0f32.cos()", "0.0f32.signum()"]
    );
    assert_eq!(floats(rgbf(&toks("Color3F::new, 0x010203"), c)), vec![F1, F2, F3]);
    assert_eq!(floats(rgbf(&toks("Color3F::new, \"010203\""), c)), vec![F1, F2, F3]);
    assert_eq!(floats(rgbf(&toks("Color3F::new, \"#010203\""), c)), vec![F1, F2, F3]);
    assert_eq!(floats(rgbf(&toks("Color3F::new, [0.15; 3]"), c)), vec![0.15, 0.15, 0.15]);
    assert_eq!(floats(rgbf(&toks("Color3F::new, Transparent"), c)), vec![0.0, 0.0, 0.0]);
    assert_eq!(floats(rgbf(&toks("Color3F::new, Black"), c)), vec![0.0, 0.0, 0.0]);
    assert_eq!(floats(rgbf(&toks("Color3F::new, White"), c)), vec![1.0, 1.0, 1.0]);
}

#[test]
pub fn test_float() {
    let c = cfg();
    assert_eq!(floats(rgbaf(&toks("ColorF::new, [1, 2, 3]"), c)), vec![F1, F2, F3, 1.0]);
    assert_eq!(floats(rgbaf(&toks("ColorF::new, [1, 2, 3, 4]"), c)), vec![F1, F2, F3, F4]);
    let src = "ColorF::new, (0.5f32.powi(2), 2.0 / 4.0, 0.4)";
    assert_eq!(exprs(src, rgbaf(&toks(src), c)), vec!["0.5f32.powi(2)", "2.0/4.0", "0.4", "1/1"]);
    let src = "ColorF::new, (0.5f32.powi(2), 2.0 / 4.0, 0.4, 0.1)";
    assert_eq!(exprs(src, rgbaf(&toks(src), c)), vec!["0.5f32.powi(2)", "2.0/4.0", "0.4", "0.1"]);
    assert_eq!(
        floats(rgbaf(&toks("ColorF::new, [0.14, 0.56, 0.66]"), c)),
        vec![0.14, 0.56, 0.66, 1.0]
    );
    assert_eq!(
        floats(rgbaf(&toks("ColorF::new, [0.43, 0.12, 0, 1]"), c)),
        vec![0.43, 0.12, 0.0, 1.0]
    );
    assert_eq!(floats(rgbaf(&toks("ColorF::new, 0x010203"), c)), vec![F1, F2, F3, 1.0]);
    assert_eq!(floats(rgbaf(&toks("ColorF::new, 0x01020304"), c)), vec![F1, F2, F3, F4]);
    assert_eq!(floats(rgbaf(&toks("ColorF::new, \"010203\""), c)), vec![F1, F2, F3, 1.0]);
    assert_eq!(floats(rgbaf(&toks("ColorF::new, \"01020304\""), c)), vec![F1, F2, F3, F4]);
    assert_eq!(floats(rgbaf(&toks("ColorF::new, \"#010203\""), c)), vec![F1, F2, F3, 1.0]);
    assert_eq!(floats(rgbaf(&toks("ColorF::new, \"#01020304\""), c)), vec![F1, F2, F3, F4]);
    assert_eq!(
        floats(rgbaf(&toks("ColorF::new, [0.15; 3]"), c)),
        vec![0.15, 0.15, 0.15, 1.0]
    );
    assert_eq!(
        floats(rgbaf(&toks("ColorF::new, [0.75; 3, 0.13]"), c)),
        vec![0.75, 0.75, 0.75, 0.13]
    );
    assert_eq!(floats(rgbaf(&toks("ColorF::new, [2; 4]"), c)), vec![F2, F2, F2, F2]);
    assert_eq!(floats(rgbaf(&toks("ColorF::new, Transparent"), c)), vec![0.0, 0.0, 0.0, 0.0]);
    assert_eq!(floats(rgbaf(&toks("ColorF::new, Black"), c)), vec![0.0, 0.0, 0.0, 1.0]);
    assert_eq!(floats(rgbaf(&toks("ColorF::new, White"), c)), vec![1.0, 1.0, 1.0, 1.0]);
}

#[test]
pub fn test_clamp() {
    let c = Config { posture: Posture::Clamp, ..Config::default() };
    assert_eq!(
        ints(rgba(&toks("Color::new, [1000, -1000, 500, 244]"), c)),
        vec![255, 0, 255, 244]
    );
    assert_eq!(
        floats(rgbaf(&toks("ColorF::new, [-1, 2.0, 3.14, 0.5]"), c)),
        vec![0.0, 1.0, 1.0, 0.5]
    );
}

#[test]
pub fn test_compact() {
    let c = Config { compact: true, ..Config::default() };
    assert_eq!(ints(rgba(&toks("Color::new, 0x123"), c)), vec![0x11, 0x22, 0x33, 255]);
    assert_eq!(ints(rgba(&toks("Color::new, 0x1234"), c)), vec![0x11, 0x22, 0x33, 0x44]);
    assert_eq!(ints(rgba(&toks("Color::new, \"123\""), c)), vec![0x11, 0x22, 0x33, 255]);
    assert_eq!(ints(rgba(&toks("Color::new, \"1234\""), c)), vec![0x11, 0x22, 0x33, 0x44]);
    assert_eq!(ints(rgba(&toks("Color::new, \"#123\""), c)), vec![0x11, 0x22, 0x33, 255]);
    assert_eq!(ints(rgba(&toks("Color::new, \"#1234\""), c)), vec![0x11, 0x22, 0x33, 0x44]);
}

#[test]
pub fn struct_shape_with_fields() {
    let em = rgba(&toks("Cmyk, [123, 155, 224, 155] => {c, m, y, k}"), cfg()).unwrap();
    match &em.shape {
        Shape::Struct { fields, rest_default } => {
            let names: Vec<&str> = fields.iter().map(|f| f.name.as_str()).collect();
            assert_eq!(names, vec!["c", "m", "y", "k"]);
            assert!(!rest_default);
        }
        Shape::Call => panic!("expected a structure literal"),
    }
}

fn error(r: Result<Emission, ColorError>) -> ErrorKind {
    match r {
        Err(e) => e.kind,
        Ok(em) => panic!("expected an error, got {:?}", em),
    }
}

fn fracs(r: Result<Emission, ColorError>) -> Vec<(i64, i64)> {
    r.unwrap()
        .values
        .iter()
        .map(|c| match c {
            Channel::Float(f) => (f.num, f.den),
            other => panic!("not a float channel: {:?}", other),
        })
        .collect()
}

#[test]
pub fn int_triples_pass_through() {
    let c = cfg();
    assert_eq!(ints(rgb(&toks("C, [10, 20, 30]"), c)), vec![10, 20, 30]);
    assert_eq!(ints(rgba(&toks("C, [10, 20, 30]"), c)), vec![10, 20, 30, 255]);
    assert_eq!(ints(rgb(&toks("C, [0, 255, 128]"), c)), vec![0, 255, 128]);
}

#[test]
pub fn zero_one_channels_stand_for_themselves() {
    let c = cfg();
    assert_eq!(fracs(rgbf(&toks("C, [1, 0, 1]"), c)), vec![(1, 1), (0, 1), (1, 1)]);
    assert_eq!(fracs(rgbf(&toks("C, [1, 0, 2]"), c)), vec![(1, 255), (0, 255), (2, 255)]);
    assert_eq!(floats(rgbaf(&toks("C, [1, 0, 1, 0]"), c)), vec![1.0, 0.0, 1.0, 0.0]);
    assert_eq!(floats(rgbaf(&toks("C, [255, 255, 255, 255]"), c)), vec![1.0, 1.0, 1.0, 1.0]);
    assert_eq!(floats(rgbaf(&toks("C, [1.0, 0.5, 1, 0]"), c)), vec![1.0, 0.5, 1.0, 0.0]);
}

#[test]
pub fn bytes_survive_float_round_trip() {
    for v in [2i64, 32, 144, 220, 254, 255] {
        assert_eq!(Frac::new(v, 255).to_byte(), v);
    }
    let c = cfg();
    let f = fracs(rgbf(&toks("C, [32, 144, 220]"), c));
    assert_eq!(f, vec![(32, 255), (144, 255), (220, 255)]);
    let back: Vec<i64> = f.iter().map(|(n, d)| Frac::new(*n, *d).to_byte()).collect();
    assert_eq!(back, vec![32, 144, 220]);
}

#[test]
pub fn floats_truncate_to_bytes() {
    let c = cfg();
    assert_eq!(ints(rgb(&toks("C, [0.5, 0.2, 0.999]"), c)), vec![127, 51, 254]);
    assert_eq!(Frac::new(-1, 2).to_byte(), -127);
    assert_eq!(Frac::new(i64::MAX, 1).to_byte(), i64::MAX);
    assert_eq!(Frac::new(i64::MIN, 1).to_byte(), i64::MIN);
}

#[test]
pub fn hex_strings_are_byte_exact() {
    let c = cfg();
    assert_eq!(ints(rgba(&toks("C, \"010203\""), c)), vec![1, 2, 3, 255]);
    assert_eq!(ints(rgba(&toks("C, \"01020304\""), c)), vec![1, 2, 3, 4]);
    assert_eq!(ints(rgba(&toks("C, \"#AaBbCc\""), c)), vec![0xaa, 0xbb, 0xcc, 255]);
    assert_eq!(ints(rgba(&toks("C, 0XFF0080"), c)), vec![255, 0, 128, 255]);
    assert_eq!(error(rgba(&toks("C, \"123\""), c)), ErrorKind::InvalidHexLength);
    assert_eq!(error(rgba(&toks("C, \"12345\""), c)), ErrorKind::InvalidHexLength);
    assert_eq!(error(rgba(&toks("C, 0x12345"), c)), ErrorKind::InvalidHexLength);
    let r = rgba(&toks("C, \"0102-3\""), c);
    assert_eq!(r.as_ref().err(), Some(&ColorError { kind: ErrorKind::InvalidHexDigit, at: Some(2) }));
    assert_eq!(error(rgba(&toks("C, 12"), c)), ErrorKind::InvalidColorSyntax);
}

#[test]
pub fn hex_letters_beyond_f_count_on() {
    let unchecked = Config { posture: Posture::Unchecked, ..Config::default() };
    assert_eq!(ints(rgb(&toks("C, \"zz0000\""), unchecked)), vec![595, 0, 0]);
    let r = rgb(&toks("C, \"zz0000\""), cfg());
    assert_eq!(r.as_ref().err(), Some(&ColorError { kind: ErrorKind::OutOfBounds, at: Some(2) }));
}

#[test]
pub fn splats() {
    let c = cfg();
    assert_eq!(ints(rgba(&toks("C, [75; 3]"), c)), vec![75, 75, 75, 255]);
    assert_eq!(fracs(rgbaf(&toks("C, [0.15; 3]"), c)), vec![(15, 100), (15, 100), (15, 100), (1, 1)]);
    assert_eq!(floats(rgbaf(&toks("C, [0.75; 3, 0.13]"), c)), vec![0.75, 0.75, 0.75, 0.13]);
    assert_eq!(fracs(rgbaf(&toks("C, [0.5; 3, 51]"), c)), vec![(5, 10), (5, 10), (5, 10), (51, 255)]);
    assert_eq!(fracs(rgbaf(&toks("C, [51; 3, 0.5]"), c)), vec![(51, 255), (51, 255), (51, 255), (5, 10)]);
    assert_eq!(error(rgba(&toks("C, [75; 5]"), c)), ErrorKind::SplatCount);
    assert_eq!(error(rgba(&toks("C, [0.5; 2]"), c)), ErrorKind::SplatCount);
    assert_eq!(error(rgba(&toks("C, [75; 4, 1]"), c)), ErrorKind::SplatAlphaCount);
    assert_eq!(error(rgba(&toks("C, [75; 3, 1, 2]"), c)), ErrorKind::UnknownColorSyntax);
}

#[test]
pub fn mixed_lists_cast_integers_unscaled() {
    let c = cfg();
    assert_eq!(fracs(rgbaf(&toks("C, [0.5, 1, 0]"), c)), vec![(5, 10), (1, 1), (0, 1), (1, 1)]);
    assert_eq!(ints(rgba(&toks("C, [0.5, 1, 0]"), c)), vec![127, 255, 0, 255]);
    assert_eq!(error(rgba(&toks("C, [0.5, 144, 220, 125]"), c)), ErrorKind::OutOfBounds);
}

#[test]
pub fn range_postures() {
    let src = "C, [1000, 255, 128, 0]";
    let r = rgba(&toks(src), cfg());
    assert_eq!(r.as_ref().err(), Some(&ColorError { kind: ErrorKind::IntegerOutOfRange, at: Some(3) }));
    let clamp = Config { posture: Posture::Clamp, ..Config::default() };
    assert_eq!(ints(rgba(&toks(src), clamp)), vec![255, 255, 128, 0]);
    let unchecked = Config { posture: Posture::Unchecked, ..Config::default() };
    assert_eq!(ints(rgba(&toks(src), unchecked)), vec![1000, 255, 128, 0]);
    assert_eq!(error(rgba(&toks("C, [0.5, 1.5, 0.0]"), cfg())), ErrorKind::FloatOutOfRange);
    assert_eq!(floats(rgbf(&toks("C, [0.5, 1.5, 0.0]"), clamp)), vec![0.5, 1.0, 0.0]);
    let r = rgb(&toks("C, [-5, 0, 0]"), cfg());
    assert_eq!(r.as_ref().err(), Some(&ColorError { kind: ErrorKind::OutOfBounds, at: Some(2) }));
    assert_eq!(ints(rgb(&toks("C, [-5, 0, 0]"), unchecked)), vec![-5, 0, 0]);
}

#[test]
pub fn named_colors() {
    let c = cfg();
    assert_eq!(ints(rgba(&toks("C, White"), c)), vec![255, 255, 255, 255]);
    assert_eq!(ints(rgb(&toks("C, White"), c)), vec![255, 255, 255]);
    assert_eq!(ints(rgba(&toks("C, Transparent"), c)), vec![0, 0, 0, 0]);
    assert_eq!(ints(rgba(&toks("C, Gray700"), c)), vec![55, 65, 81, 255]);
    assert_eq!(ints(rgb(&toks("C, Sky400"), c)), vec![56, 189, 248]);
    assert_eq!(ints(rgb(&toks("C, light_coral"), c)), vec![240, 128, 128]);
    let r = rgb(&toks("C, Mauve"), c);
    assert_eq!(r.as_ref().err(), Some(&ColorError { kind: ErrorKind::InvalidColorName, at: Some(2) }));
    assert_eq!(ints(rgb(&toks("C, Gray750"), c)), vec![128, 128, 128]);
    let no_shades = Config { shades: false, ..Config::default() };
    assert_eq!(ints(rgb(&toks("C, Gray700"), no_shades)), vec![128, 128, 128]);
    assert_eq!(error(rgb(&toks("C, Mauve700"), c)), ErrorKind::InvalidColorName);
    assert_eq!(ints(rgb(&toks("C, Red"), no_shades)), vec![255, 0, 0]);
    let shades_only = Config { named: false, ..Config::default() };
    assert_eq!(ints(rgb(&toks("C, Gray700"), shades_only)), vec![55, 65, 81]);
    assert_eq!(ints(rgb(&toks("C, White0"), shades_only)), vec![255, 255, 255]);
    assert_eq!(error(rgb(&toks("C, Red"), shades_only)), ErrorKind::InvalidColorName);
    let no_names = Config { named: false, shades: false, ..Config::default() };
    assert_eq!(error(rgb(&toks("C, Red"), no_names)), ErrorKind::InvalidColorSyntax);
}

#[test]
pub fn longer_field_lists_default_the_rest() {
    let c = cfg();
    let em = rgba(&toks("PixelData, [1, 2, 3, 4] => {r, g, b, a, _}"), c).unwrap();
    match &em.shape {
        Shape::Struct { fields, rest_default } => {
            let names: Vec<&str> = fields.iter().map(|f| f.name.as_str()).collect();
            assert_eq!(names, vec!["r", "g", "b", "a"]);
            assert!(*rest_default);
        }
        Shape::Call => panic!("expected a structure literal"),
    }
    let em = rgb(&toks("P, [1, 2, 3] => {r, g, b, a,}"), c).unwrap();
    match &em.shape {
        Shape::Struct { fields, rest_default } => {
            assert_eq!(fields.len(), 3);
            assert!(*rest_default);
        }
        Shape::Call => panic!("expected a structure literal"),
    }
    assert_eq!(error(rgba(&toks("P, [1, 2, 3] => {r, g, b}"), c)), ErrorKind::TooFewFields);
    assert_eq!(error(rgb(&toks("P, [1, 2, 3] => {}"), c)), ErrorKind::TooFewFields);
}

#[test]
pub fn discarded_alpha_expression_is_not_emitted() {
    let c = cfg();
    let src = "C, (r, g, b, side_effect())";
    assert_eq!(exprs(src, rgb(&toks(src), c)), vec!["r", "g", "b"]);
    assert_eq!(exprs(src, rgbf(&toks(src), c)), vec!["r", "g", "b"]);
    assert_eq!(exprs(src, rgba(&toks(src), c)), vec!["r", "g", "b", "side_effect()"]);
    let src = "C, (r, g, b)";
    assert_eq!(exprs(src, rgbaf(&toks(src), c)), vec!["r", "g", "b", "1/1"]);
}

#[test]
pub fn expression_lists() {
    let c = cfg();
    let src = "C, (a, , b)";
    assert_eq!(exprs(src, rgb(&toks(src), c)), vec!["a", "", "b"]);
    let src = "C, (a, b, c,)";
    assert_eq!(exprs(src, rgba(&toks(src), c)), vec!["a", "b", "c", "255"]);
    assert_eq!(error(rgb(&toks("C, (a, b)"), c)), ErrorKind::ExpectedThreeOrFourItems);
    assert_eq!(error(rgb(&toks("C, (a, b, c, d, e)"), c)), ErrorKind::ExpectedThreeOrFourItems);
    let unchecked = Config { posture: Posture::Unchecked, ..Config::default() };
    let src = "C, (1000, 0, 0)";
    assert_eq!(exprs(src, rgb(&toks(src), unchecked)), vec!["1000", "0", "0"]);
    assert_eq!(exprs(src, rgb(&toks(src), c)), vec!["1000", "0", "0"]);
}

#[test]
pub fn invocation_shape_errors() {
    let c = cfg();
    assert_eq!(error(rgb(&toks("[1, 2, 3]"), c)), ErrorKind::ExpectedPath);
    assert_eq!(error(rgb(&toks("C,"), c)), ErrorKind::ExpectedColor);
    assert_eq!(error(rgb(&toks("C, Red Blue"), c)), ErrorKind::ExpectedArrowCommaOrEnd);
    assert_eq!(error(rgb(&toks("C, Red = > {r}"), c)), ErrorKind::ExpectedArrowCommaOrEnd);
    assert_eq!(error(rgb(&toks("C, Red =>"), c)), ErrorKind::ExpectedFields);
    assert_eq!(error(rgb(&toks("C, Red => (r, g, b)"), c)), ErrorKind::ExpectedFields);
    assert_eq!(error(rgb(&toks("C, Red => {r, g, b}, x"), c)), ErrorKind::ExpectedEndOfArguments);
    assert_eq!(error(rgb(&toks("C, Red => {r, g, b} x"), c)), ErrorKind::ExpectedEndOfArguments);
    assert_eq!(error(rgb(&toks("C, Red => {r, 1, b}"), c)), ErrorKind::ExpectedIdent);
    assert_eq!(error(rgb(&toks("C, Red => {r g b}"), c)), ErrorKind::ExpectedCommaOrEnd);
    assert_eq!(ints(rgb(&toks("C, Red,"), c)), vec![255, 0, 0]);
    assert_eq!(ints(rgb(&toks("C, Red => {r, g, b},"), c)), vec![255, 0, 0]);
    assert_eq!(error(rgb(&toks("C, ;"), c)), ErrorKind::InvalidColorSyntax);
    assert_eq!(error(rgb(&toks("C, {1, 2, 3}"), c)), ErrorKind::InvalidColorSyntax);
}

#[test]
pub fn number_list_errors() {
    let c = cfg();
    assert_eq!(error(rgb(&toks("C, [a, 1, 2]"), c)), ErrorKind::ExpectedNumber);
    assert_eq!(error(rgb(&toks("C, [\"1\", 1, 2]"), c)), ErrorKind::ExpectedNumber);
    let unchecked = Config { posture: Posture::Unchecked, ..Config::default() };
    assert_eq!(error(rgb(&toks("C, [99999999999999999999, 1, 2]"), unchecked)), ErrorKind::IntegerOverflow);
    assert_eq!(error(rgb(&toks("C, [1_0.5, 0.1, 0.1]"), unchecked)), ErrorKind::FloatOverflow);
    assert_eq!(error(rgb(&toks("C, [1, 2, 3, -]"), c)), ErrorKind::InvalidNegation);
    assert_eq!(error(rgb(&toks("C, [1, - -2, 3]"), c)), ErrorKind::InvalidNegation);
    assert_eq!(error(rgb(&toks("C, [1, -, 3]"), c)), ErrorKind::InvalidNegation);
    assert_eq!(error(rgb(&toks("C, [1, 2]"), c)), ErrorKind::UnknownColorSyntax);
    assert_eq!(error(rgb(&toks("C, []"), c)), ErrorKind::UnknownColorSyntax);
    assert_eq!(ints(rgb(&toks("C, [1, 2, 3,]"), c)), vec![1, 2, 3]);
}

#[test]
pub fn literal_forms_in_lists() {
    let c = cfg();
    assert_eq!(ints(rgb(&toks("C, [0x10, 0b1, 1_0]"), c)), vec![16, 1, 10]);
    assert_eq!(ints(rgb(&toks("C, [1u8, 2i64, 0o7]"), c)), vec![1, 2, 7]);
    assert_eq!(fracs(rgbf(&toks("C, [0.5f32, 1e-1, 25E-2]"), c)), vec![(5, 10), (1, 10), (25, 100)]);
    assert_eq!(fracs(rgbf(&toks("C, [1., 0.0e5, 0.01e+1]"), c)), vec![(1, 1), (0, 1), (1, 10)]);
    let unchecked = Config { posture: Posture::Unchecked, ..Config::default() };
    assert_eq!(fracs(rgbf(&toks("C, [2e3, 0.5, 0.5]"), unchecked))[0], (2000, 1));
    assert_eq!(fracs(rgbf(&toks("C, [1e30, 0.5, 0.5]"), unchecked))[0], (i64::MAX, 1));
    assert_eq!(ints(rgb(&toks("C, [1e30, 0.5, 0.5]"), unchecked))[0], i64::MAX);
    let clamp = Config { posture: Posture::Clamp, ..Config::default() };
    assert_eq!(fracs(rgbf(&toks("C, [1e30, 0.5, 0.5]"), clamp))[0], (1, 1));
    assert_eq!(error(rgb(&toks("C, [1e30, 0.5, 0.5]"), c)), ErrorKind::FloatOutOfRange);
    assert_eq!(
        fracs(rgbf(&toks("C, [0.1234567890123456789, 0.5, 0.5]"), c))[0],
        (123456789012345678, 1000000000000000000)
    );
    assert_eq!(fracs(rgbf(&toks("C, [1e-19, 0.5, 0.5]"), c))[0], (0, 1000000000000000000));
    assert_eq!(fracs(rgbf(&toks("C, [25e-20, 0.5, 0.5]"), c))[0], (0, 1000000000000000000));
    assert_eq!(fracs(rgbf(&toks("C, [1e-18, 0.5, 0.5]"), c))[0], (1, 1000000000000000000));
    assert_eq!(fracs(rgbf(&toks("C, [0.5e99999999999999999999, 0.5, 0.5]"), unchecked))[0], (i64::MAX, 1));
    assert_eq!(fracs(rgbf(&toks("C, [5e-99999999999999999999, 0.5, 0.5]"), c))[0], (0, 1000000000000000000));
    assert_eq!(
        floats(rgbf(&toks("C, [1.00000000000000000000001, 0.5, 0.5]"), c)),
        vec![1.0, 0.5, 0.5]
    );
    assert_eq!(error(rgb(&toks("C, [1.0000000000000001, 0.5, 0.5]"), c)), ErrorKind::FloatOutOfRange);
}

#[test]
pub fn invisible_groups_unwrap() {
    let inner = vec![Tok::Lit { text: "7".to_string(), pos: 11 }];
    let input = vec![
        Tok::Ident { name: "C".to_string(), pos: 0 },
        Tok::Punct { ch: ',', joint: false, pos: 1 },
        Tok::Group {
            delim: Delim::Bracket,
            inner: vec![
                Tok::Group { delim: Delim::Invisible, inner, pos: 10 },
                Tok::Punct { ch: ',', joint: false, pos: 12 },
                Tok::Lit { text: "8".to_string(), pos: 13 },
                Tok::Punct { ch: ',', joint: false, pos: 14 },
                Tok::Lit { text: "9".to_string(), pos: 15 },
            ],
            pos: 2,
        },
    ];
    assert_eq!(ints(rgb(&input, cfg())), vec![7, 8, 9]);
}

#[test]
pub fn fields_attach_once() {
    let color = parse_color(&toks("[1, 2, 3]")[0], cfg()).unwrap();
    assert_eq!(color, ColorResult::Integers([1, 2, 3, 255]));
    let f = |n: &str| Field { name: n.to_string(), pos: 0 };
    let with = color.with_idents(vec![f("r"), f("g"), f("b")]).unwrap();
    assert!(matches!(with, ColorResult::IntFields(_, _)));
    let again = with.with_idents(vec![f("x")]);
    assert_eq!(again.err(), Some(ColorError { kind: ErrorKind::FieldsAlreadySet, at: None }));
}

#[test]
pub fn check_applies_posture() {
    let mut c = ColorResult::Integers([300, -2, 5, 255]);
    assert_eq!(
        c.check(Posture::Checked, 4),
        Err(ColorError { kind: ErrorKind::OutOfBounds, at: Some(4) })
    );
    assert_eq!(c.check(Posture::Unchecked, 4), Ok(()));
    assert_eq!(c, ColorResult::Integers([300, -2, 5, 255]));
    assert_eq!(c.check(Posture::Clamp, 4), Ok(()));
    assert_eq!(c, ColorResult::Integers([255, 0, 5, 255]));
    let mut f = ColorResult::Floats([Frac::new(3, 2), Frac::new(-1, 4), Frac::new(1, 4), Frac::new(1, 1)]);
    assert_eq!(f.check(Posture::Clamp, 0), Ok(()));
    assert_eq!(
        f,
        ColorResult::Floats([Frac::new(1, 1), Frac::new(0, 1), Frac::new(1, 4), Frac::new(1, 1)])
    );
}

#[test]
pub fn widen_bytes() {
    assert_eq!(u8_to_i64([0, 1, 128, 255]), [0, 1, 128, 255]);
}

#[test]
pub fn path_separators() {
    let input = toks(":: a . b , c : d");
    let mut at = 0;
    assert_eq!(extract_sep(&input, &mut at), Ok(PathSep::DoubleColon));
    assert_eq!(at, 2);
    at = 3;
    assert_eq!(extract_sep(&input, &mut at), Ok(PathSep::Dot));
    assert_eq!(at, 4);
    at = 5;
    assert_eq!(extract_sep(&input, &mut at), Ok(PathSep::Break));
    at = 7;
    assert_eq!(extract_sep(&input, &mut at).map_err(|e| e.kind), Err(ErrorKind::ExpectedSeparator));
    at = 2;
    assert_eq!(extract_sep(&input, &mut at).map_err(|e| e.kind), Err(ErrorKind::ExpectedSeparator));
    at = 9;
    assert_eq!(extract_sep(&input, &mut at), Err(ColorError { kind: ErrorKind::ExpectedSeparator, at: None }));
    let mut out = Vec::new();
    PathSep::DoubleColon.write_to(&mut out, 0);
    PathSep::Dot.write_to(&mut out, 0);
    PathSep::Break.write_to(&mut out, 0);
    let text: String = out.iter().map(render).collect();
    assert_eq!(text, "::.");
    assert!(matches!(out[0], Tok::Punct { joint: true, .. }));
}

#[test]
pub fn error_messages() {
    let e = ColorError { kind: ErrorKind::InvalidHexLength, at: None };
    assert_eq!(e.message(), "Invalid color syntax, must be of length 6 or 8.");
    let e = ColorError { kind: ErrorKind::FloatOverflow, at: Some(3) };
    assert_eq!(e.message(), "float overflow.");
    let e = ColorError { kind: ErrorKind::SplatCount, at: None };
    assert_eq!(e.message(), "Splat can only have value 3 or 4.");
}

#[test]
pub fn end_of_stream() {
    let input = toks("a ,");
    assert!(!is_end_of_stream(&input, 0));
    assert!(is_end_of_stream(&input, 1));
    assert!(is_end_of_stream(&input, 2));
    let input = toks(", b");
    assert!(!is_end_of_stream(&input, 0));
}
