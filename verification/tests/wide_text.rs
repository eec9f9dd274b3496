use ddagrab_proxy::wide::{decode_name, encode_nul};

fn std_decode(buf: &[u16]) -> String {
    let len = buf.iter().position(|&c| c == 0).unwrap_or(buf.len());
    String::from_utf16_lossy(&buf[..len])
}

#[test]
fn names_are_decoded_up_to_the_nul() {
    let mut buf = [0u16; 256];
    for (i, unit) in "Winlogon".encode_utf16().enumerate() {
        buf[i] = unit;
    }
    assert_eq!(decode_name(&buf), "Winlogon");
    assert_eq!(decode_name(&[]), "");
    assert_eq!(decode_name(&[0x44, 0x45]), "DE");
}

#[test]
fn lone_surrogates_are_replaced() {
    let cases: [&[u16]; 7] = [
        &[0xd800],
        &[0xdc00],
        &[0xd83d, 0xde00],
        &[0xd83d, 0x41],
        &[0xd83d, 0xd83d, 0xde00],
        &[0xde00, 0xd83d],
        &[0x41, 0xd800, 0, 0x42],
    ];
    for case in cases {
        assert_eq!(decode_name(case), std_decode(case), "{case:x?}");
    }
}

#[test]
fn text_is_encoded_with_a_nul() {
    for text in ["", "dda_hook_core.dll", "ディスプレイ", "a😀b"] {
        let want: Vec<u16> = text.encode_utf16().chain(std::iter::once(0)).collect();
        assert_eq!(encode_nul(text), want);
    }
}

#[test]
fn encoded_text_is_decoded_back() {
    for text in ["", "Default", "😀", "\u{ffff}\u{10000}"] {
        assert_eq!(decode_name(&encode_nul(text)), text);
    }
}
