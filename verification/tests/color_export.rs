use violet::color::{format_hex_rgb, trim_str, HexColorError, Rgba8};
use violet::export::{
    decimal_string, design_token_export, export_hex_list, tailwind_export, tint, unique_names,
};

fn rgba(red: u8, green: u8, blue: u8, alpha: u8) -> Rgba8 {
    Rgba8 { red, green, blue, alpha }
}

#[test]
fn parses_long_hex_with_hash() {
    assert_eq!(Rgba8::from_hex_str("#ff8000"), Ok(rgba(255, 128, 0, 255)));
}

#[test]
fn parses_long_hex_with_alpha_and_prefix() {
    assert_eq!(
        Rgba8::from_hex_str("  0x11223344 \n"),
        Ok(rgba(0x11, 0x22, 0x33, 0x44))
    );
}

#[test]
fn parses_bare_hex() {
    assert_eq!(Rgba8::from_hex_str("0a0B0c"), Ok(rgba(10, 11, 12, 255)));
}

#[test]
fn parses_short_form_as_hex_digits_expanded() {
    assert_eq!(Rgba8::from_hex_str("#fff"), Ok(rgba(255, 255, 255, 255)));
    assert_eq!(Rgba8::from_hex_str("#123"), Ok(rgba(17, 34, 51, 255)));
    assert_eq!(Rgba8::from_hex_str("#7654"), Ok(rgba(119, 102, 85, 68)));
    assert_eq!(Rgba8::from_hex_str("#a8Fc"), Ok(rgba(170, 136, 255, 204)));
}

#[test]
fn short_form_rejects_non_hex_digits() {
    assert_eq!(Rgba8::from_hex_str("#g12"), Err(HexColorError::InvalidRed));
    assert_eq!(Rgba8::from_hex_str("#1g2"), Err(HexColorError::InvalidGreen));
    assert_eq!(Rgba8::from_hex_str("#11g"), Err(HexColorError::InvalidBlue));
    assert_eq!(Rgba8::from_hex_str("#111g"), Err(HexColorError::InvalidAlpha));
}

#[test]
fn long_form_errors_name_the_channel() {
    assert_eq!(Rgba8::from_hex_str("#zz0000"), Err(HexColorError::InvalidRed));
    assert_eq!(Rgba8::from_hex_str("#00zz00"), Err(HexColorError::InvalidGreen));
    assert_eq!(Rgba8::from_hex_str("#0000zz"), Err(HexColorError::InvalidBlue));
    assert_eq!(Rgba8::from_hex_str("#000000zz"), Err(HexColorError::InvalidAlpha));
}

#[test]
fn wrong_length_is_a_format_error() {
    assert_eq!(Rgba8::from_hex_str(""), Err(HexColorError::InvalidFormat));
    assert_eq!(Rgba8::from_hex_str("#12345"), Err(HexColorError::InvalidFormat));
    assert_eq!(Rgba8::from_hex_str("#1234567"), Err(HexColorError::InvalidFormat));
}

#[test]
fn a_plus_sign_counts_as_a_sign_of_a_channel() {
    assert_eq!(Rgba8::from_hex_str("#+5ff00"), Ok(rgba(5, 255, 0, 255)));
    assert_eq!(Rgba8::from_hex_str("#+12"), Err(HexColorError::InvalidRed));
}

#[test]
fn formats_hex_with_two_lowercase_digits_per_channel() {
    assert_eq!(format_hex_rgb(255, 8, 171), "#ff08ab");
    assert_eq!(rgba(0, 1, 2, 3).to_hex_string(), "#000102");
}

#[test]
fn formatted_hex_parses_back_with_opaque_alpha() {
    for &(r, g, b) in &[(0u8, 0u8, 0u8), (255, 255, 255), (18, 52, 86), (171, 205, 239)] {
        let s = format_hex_rgb(r, g, b);
        assert_eq!(Rgba8::from_hex_str(&s), Ok(rgba(r, g, b, 255)));
    }
}

#[test]
fn decimal_strings() {
    assert_eq!(decimal_string(0), "0");
    assert_eq!(decimal_string(950), "950");
    assert_eq!(decimal_string(1234567), "1234567");
}

#[test]
fn tints_follow_the_50_to_950_scale() {
    let all: Vec<usize> = (0..11).map(tint).collect();
    assert_eq!(all, vec![50, 100, 200, 300, 400, 500, 600, 700, 800, 900, 950]);
}

#[test]
fn repeated_names_get_numbered_suffixes() {
    let names: Vec<String> = ["red", "blue", "red", "red", "red_1"]
        .iter()
        .map(|s| s.to_string())
        .collect();
    assert_eq!(
        unique_names(&names),
        vec!["red", "blue", "red_1", "red_2", "red_1"]
    );
}

fn shades(base: u8) -> Vec<Rgba8> {
    (0..11).map(|i| rgba(base, i as u8, 255 - i as u8, 255)).collect()
}

#[test]
fn hex_list_uses_shouty_snake_case_names() {
    let names = vec!["My Color".to_string(), "my-color".to_string()];
    let out = export_hex_list(&names, &vec![shades(1), shades(2)]);
    let lines: Vec<&str> = out.lines().collect();
    assert_eq!(lines.len(), 22);
    assert_eq!(lines[0], "pub const MY_COLOR_50: Srgba = srgba!(\"#0100ff\");");
    assert_eq!(lines[10], "pub const MY_COLOR_950: Srgba = srgba!(\"#010af5\");");
    assert_eq!(lines[11], "pub const MY_COLOR_1_50: Srgba = srgba!(\"#0200ff\");");
    assert_eq!(lines[12], "pub const MY_COLOR_1_100: Srgba = srgba!(\"#0201fe\");");
    assert!(!out.ends_with('\n'));
}

#[test]
fn tailwind_export_uses_kebab_case_names() {
    let names = vec!["Ocean Blue".to_string(), "oceanBlue".to_string()];
    let entries = tailwind_export(&names, &vec![shades(3), shades(4)]);
    assert_eq!(entries.len(), 2);
    assert_eq!(entries[0].0, "ocean-blue");
    assert_eq!(entries[1].0, "ocean-blue_1");
    assert_eq!(entries[0].1.len(), 11);
    assert_eq!(entries[0].1[0], "#0300ff");
    assert_eq!(entries[1].1[10], "#040af5");
}

#[test]
fn design_tokens_name_each_shade() {
    let names = vec!["Sand".to_string()];
    let entries = design_token_export(&names, &vec![shades(9)]);
    assert_eq!(entries.len(), 1);
    assert_eq!(entries[0].0, "sand");
    let tokens = &entries[0].1;
    assert_eq!(tokens.len(), 11);
    assert_eq!(tokens[0], ("50".to_string(), "#0900ff".to_string()));
    assert_eq!(tokens[5], ("500".to_string(), "#0905fa".to_string()));
    assert_eq!(tokens[10], ("950".to_string(), "#090af5".to_string()));
}

#[test]
fn errors_describe_themselves() {
    assert_eq!(HexColorError::InvalidRed.message(), "Invalid red value");
    assert_eq!(HexColorError::InvalidAlpha.message(), "Invalid alpha value");
    assert_eq!(
        HexColorError::InvalidFormat.message(),
        "Color must be in the format #RRGGBB"
    );
}

#[test]
fn export_keys_stay_distinct_when_names_collide() {
    let names = vec![
        "my_red".to_string(),
        "My Red".to_string(),
        "my-red".to_string(),
        "myRed".to_string(),
    ];
    let entries = tailwind_export(&names, &vec![shades(1), shades(2), shades(3), shades(4)]);
    let keys: Vec<&str> = entries.iter().map(|e| e.0.as_str()).collect();
    assert_eq!(keys, vec!["my-red", "my-red_1", "my-red_2", "my-red_3"]);
    for i in 0..keys.len() {
        for j in i + 1..keys.len() {
            assert_ne!(keys[i], keys[j]);
        }
    }
}

#[test]
fn design_tokens_match_tailwind_entries() {
    let names = vec!["Sky".to_string(), "sky".to_string()];
    let table = vec![shades(5), shades(6)];
    let tailwind = tailwind_export(&names, &table);
    let tokens = design_token_export(&names, &table);
    assert_eq!(tailwind.len(), tokens.len());
    for p in 0..tokens.len() {
        assert_eq!(tailwind[p].0, tokens[p].0);
        for t in 0..11 {
            assert_eq!(tailwind[p].1[t], tokens[p].1[t].1);
            assert_eq!(tokens[p].1[t].0, tint(t).to_string());
        }
    }
}

#[test]
fn trims_unicode_white_space_like_str_trim() {
    for s in ["  a b  ", "\u{3000}\u{2028}x\u{85}", "\t\n", "", "é ü", "\u{200B}y\u{200B}"] {
        assert_eq!(trim_str(s), s.trim());
    }
    assert_eq!(Rgba8::from_hex_str("\u{3000}#fff\u{2029}"), Ok(rgba(255, 255, 255, 255)));
}
