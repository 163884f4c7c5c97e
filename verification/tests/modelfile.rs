use vicuna::modelfile::{parameter_size_parts, parse_quantization_bits, sanitize_model_name, SizeUnit};

/// Number of parameters a size label denotes: the library picks the number
/// and unit, which are then read and scaled in floating point.
fn parse_parameter_size(size_str: &str) -> Option<u64> {
    let (number, unit) = parameter_size_parts(size_str)?;
    let val: f64 = number.parse().ok()?;
    Some(match unit {
        SizeUnit::Billion => (val * 1_000_000_000.0) as u64,
        SizeUnit::Million => (val * 1_000_000.0) as u64,
    })
}

/// Bits per weight as a float, from the library's hundredths of a bit.
fn bits(s: &str) -> Option<f64> {
    parse_quantization_bits(s).map(|c| c as f64 / 100.0)
}

#[test]
fn test_sanitize_model_name() {
    assert_eq!(
        sanitize_model_name("hf.co/Felladrin/gguf-MXFP4-gpt-oss-20b-Derestricted:MXFP4_MOE"),
        "gpt-oss-20b-Derestricted"
    );
    assert_eq!(
        sanitize_model_name("hf.co/dphn/Dolphin3.0-Llama3.1-8B-GGUF:Q4_K_M"),
        "Dolphin3.0-Llama3.1-8B"
    );
    assert_eq!(sanitize_model_name("mipan/gpt-oss:20b-v1"), "gpt-oss");
    assert_eq!(
        sanitize_model_name("csalab/sahabatai1:llama3_instruct_Q4_K_M"),
        "sahabatai1"
    );
    assert_eq!(sanitize_model_name("llama3:latest"), "llama3");
}

#[test]
fn sanitize_keeps_marker_free_ascii_names() {
    assert_eq!(sanitize_model_name("org/llama3-8b-instruct:latest"), "llama3-8b-instruct");
    assert_eq!(sanitize_model_name("._phi-3_mini_."), "phi-3_mini");
    assert_eq!(sanitize_model_name("a/b/c:d:e"), "c");
    assert_eq!(sanitize_model_name("model-gguf-q4"), "model");
}

#[test]
fn test_parse_parameter_size() {
    assert_eq!(parse_parameter_size("7B"), Some(7_000_000_000));
    assert_eq!(parse_parameter_size("7b"), Some(7_000_000_000));
    assert_eq!(parse_parameter_size("1.7b"), Some(1_700_000_000));
    assert_eq!(parse_parameter_size("135m"), Some(135_000_000));
    assert_eq!(parse_parameter_size("Invalid"), None);
}

#[test]
fn test_parse_quantization_bits() {
    assert_eq!(
        bits("hf.co/Felladrin/gguf-MXFP4-gpt-oss-20b-Derestricted:MXFP4_MOE"),
        Some(4.0)
    );
    assert_eq!(
        bits("hf.co/dphn/Dolphin3.0-Llama3.1-8B-GGUF:Q4_K_M"),
        Some(4.5)
    );
    assert_eq!(bits("mipan/gpt-oss:20b-v1"), None);
    assert_eq!(bits("mipan/llama3-instruct:8b-heretic"), None);
    assert_eq!(bits("hf.co/Jinx-org/Jinx-gpt-oss-20b-GGUF:Q4_K_M"), Some(4.5));
    assert_eq!(
        bits("hf.co/mradermacher/gpt-oss-20B-jail-broke-GGUF:Q4_K_M"),
        Some(4.5)
    );
    assert_eq!(
        bits("hf.co/mradermacher/Qwen3-30B-A3B-abliterated-erotic-GGUF:Q4_K_M"),
        Some(4.5)
    );
    assert_eq!(
        bits("hf.co/mradermacher/gpt-oss-20b-base-i1-GGUF:Q4_K_M"),
        Some(4.5)
    );
    assert_eq!(
        bits("hf.co/mradermacher/gpt-oss-20B-jail-broke-i1-GGUF:Q4_K_M"),
        Some(4.5)
    );
    assert_eq!(bits("danielsheep/gpt-oss-20b-Unsloth:UD-Q6_K_XL"), Some(6.6));
    assert_eq!(bits("smollm2:1.7b"), None);
    assert_eq!(bits("phi3:mini"), None);
    assert_eq!(
        bits("hf.co/mradermacher/Lumimaid-v0.2-8B-i1-GGUF:Q4_K_M"),
        Some(4.5)
    );
    assert_eq!(
        bits("hf.co/mradermacher/Harmonic-Lumina-12B-i1-GGUF:Q4_K_M"),
        Some(4.5)
    );
    assert_eq!(
        bits("hf.co/mradermacher/Dirty-Muse-Writer-v01-Uncensored-Erotica-NSFW-i1-GGUF:Q6_K"),
        Some(6.6)
    );
    assert_eq!(bits("csalab/sahabatai1:llama3_instruct_Q4_K_M"), Some(4.5));

    assert_eq!(bits("smollm2:1.7b"), None);
    assert_eq!(bits("smollm2:135m"), None);

    assert_eq!(bits("Q8_0"), Some(8.5));
    assert_eq!(bits("IQ2_XS"), Some(2.3));
    assert_eq!(bits("model:Q5"), Some(5.5));
}

#[test]
fn parameter_size_follows_float_syntax() {
    assert_eq!(parse_parameter_size("  8.0B "), Some(8_000_000_000));
    assert_eq!(parse_parameter_size("20.9B"), Some(20_900_000_000));
    assert_eq!(parse_parameter_size(".5B"), Some(500_000_000));
    assert_eq!(parse_parameter_size("5.B"), Some(5_000_000_000));
    assert_eq!(parse_parameter_size("1e3M"), Some(1_000_000_000));
    assert_eq!(parse_parameter_size("2E-3B"), Some(2_000_000));
    assert_eq!(parse_parameter_size("-7B"), Some(0));
    assert_eq!(parse_parameter_size("+7B"), Some(7_000_000_000));
    assert_eq!(parse_parameter_size("infB"), Some(u64::MAX));
    assert_eq!(parse_parameter_size("NaNB"), Some(0));
    assert_eq!(parse_parameter_size("99999999999B"), Some(u64::MAX));
    assert_eq!(parse_parameter_size("1.5MB"), Some(1_500_000));
    assert_eq!(parse_parameter_size("B"), None);
    assert_eq!(parse_parameter_size("."), None);
    assert_eq!(parse_parameter_size("1e"), None);
    assert_eq!(parse_parameter_size(""), None);
}

#[test]
fn parameter_size_parts_pick_number_and_unit() {
    let parts = |s: &str| parameter_size_parts(s).map(|(n, u)| (n, u));
    assert_eq!(parts("7B"), Some(("7".to_string(), SizeUnit::Billion)));
    assert_eq!(parts(" 4.1b "), Some(("4.1".to_string(), SizeUnit::Billion)));
    assert_eq!(parts("135m"), Some(("135".to_string(), SizeUnit::Million)));
    assert_eq!(parts("1.5MB"), Some(("1.5".to_string(), SizeUnit::Million)));
    assert_eq!(parts("nanB"), Some(("NAN".to_string(), SizeUnit::Billion)));
    assert_eq!(parts("x7B"), None);
    assert_eq!(parts("7"), None);
    // The number is read in floating point: 4.1 × 10^9 is just below 4.1e9.
    assert_eq!(parse_parameter_size("4.1B"), Some(4_099_999_999));
}

#[test]
fn parameter_size_agrees_with_float_parsing_on_plain_labels() {
    for label in ["1B", "3B", "7B", "8B", "13B", "70B", "0.5B", "1.1B", "2.7B", "3.8B", "135M", "360M", "22M", "14.8B", "0.27B"] {
        let upper = label.trim().to_uppercase();
        let (num, scale) = match upper.find('B') {
            Some(i) => (&upper[..i], 1_000_000_000.0),
            None => (&upper[..upper.find('M').unwrap()], 1_000_000.0),
        };
        let expected = (num.parse::<f64>().unwrap() * scale) as u64;
        assert_eq!(parse_parameter_size(label), Some(expected), "{label}");
    }
}

#[test]
fn quantization_digit_after_q_reads_one_digit_only() {
    assert_eq!(parse_quantization_bits("model:Q3"), Some(350));
    assert_eq!(parse_quantization_bits("model:q7"), Some(750));
    assert_eq!(parse_quantization_bits("model:Q12"), None);
    assert_eq!(parse_quantization_bits("model:Q"), None);
    assert_eq!(parse_quantization_bits("  bf16 "), Some(1600));
    assert_eq!(parse_quantization_bits("f32"), Some(3200));
    assert_eq!(parse_quantization_bits("IQ4_XS"), Some(425));
}

#[test]
fn sanitize_strips_separators_and_path() {
    assert_eq!(sanitize_model_name("org/sub/name"), "name");
    assert_eq!(sanitize_model_name("--name__"), "name");
    assert_eq!(sanitize_model_name("model-gguf"), "model");
    assert_eq!(sanitize_model_name(""), "");
    assert_eq!(sanitize_model_name("a/"), "");
}

#[test]
fn sanitize_cuts_at_upper_case_byte_offsets() {
    // `ı` upper-cases to the one-byte `I`, so `-I1` is found and cut out.
    assert_eq!(sanitize_model_name("x-ı1"), "x1");
    // Upper-casing `ɐ` takes a byte more; the cut would end past the name,
    // so the name is kept whole.
    assert_eq!(sanitize_model_name("ɐ-gguf"), "ɐ-gguf");
    assert_eq!(sanitize_model_name("org/Model-gguf:latest"), "Model");
}
