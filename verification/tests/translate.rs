use ldk_facade::errors::TranslationError;
use ldk_facade::hexcode::{bytes_to_hex, hex_le_to_u64, hex_to_bytes, u64_to_hex_le};
use ldk_facade::wire::{
    make_invoice_text, parse_invoice, parse_net_address, parse_public_key,
    payment_direction_from_tag, payment_direction_to_tag, payment_hash_from_bytes,
    payment_hash_to_bytes, payment_status_from_tag, payment_status_to_tag, Network,
    PaymentDirection, PaymentHash, PaymentStatus,
};

#[test]
fn hex_encoding_exact_value() {
    assert_eq!(bytes_to_hex(&vec![0x00, 0xff, 0x1a]), "00ff1a");
    assert_eq!(bytes_to_hex(&vec![]), "");
}

#[test]
fn hex_round_trips() {
    let bytes = vec![0u8, 1, 2, 250, 255];
    let text = bytes_to_hex(&bytes);
    assert_eq!(hex_to_bytes(&text).unwrap(), bytes);

    let text = String::from("deadbeef");
    assert_eq!(bytes_to_hex(&hex_to_bytes(&text).unwrap()), text);
}

#[test]
fn hex_rejects_malformed_text() {
    assert_eq!(hex_to_bytes("zz").unwrap_err(), TranslationError::ParseError);
    assert_eq!(hex_to_bytes("abc").unwrap_err(), TranslationError::ParseError);
    // Uppercase is not the canonical form.
    assert_eq!(hex_to_bytes("AB").unwrap_err(), TranslationError::ParseError);
}

#[test]
fn fixed_width_amount_encoding() {
    // 258 = 0x102, least significant digit first, padded to 16 digits.
    assert_eq!(u64_to_hex_le(258), "2010000000000000");
    assert_eq!(u64_to_hex_le(0), "0000000000000000");
    assert_eq!(hex_le_to_u64("2010000000000000").unwrap(), 258);
    assert_eq!(hex_le_to_u64(&u64_to_hex_le(u64::MAX)).unwrap(), u64::MAX);
    assert!(hex_le_to_u64("201000000000000").is_none());
    assert!(hex_le_to_u64("201000000000000g").is_none());
}

#[test]
fn public_key_text_is_checked() {
    let good = format!("03{}", "ab".repeat(32));
    assert_eq!(parse_public_key(&good).unwrap().internal, good);
    let wrong_prefix = format!("04{}", "ab".repeat(32));
    assert_eq!(parse_public_key(&wrong_prefix).unwrap_err(), TranslationError::ParseError);
    let too_short = format!("03{}", "ab".repeat(31));
    assert_eq!(parse_public_key(&too_short).unwrap_err(), TranslationError::ParseError);
    let upper = format!("03{}", "AB".repeat(32));
    assert_eq!(parse_public_key(&upper).unwrap_err(), TranslationError::ParseError);
}

#[test]
fn net_address_text_is_checked() {
    assert_eq!(parse_net_address("127.0.0.1:9735").unwrap().internal, "127.0.0.1:9735");
    assert!(parse_net_address("::1:9735").is_ok());
    assert_eq!(parse_net_address("nocolon").unwrap_err(), TranslationError::ParseError);
    assert_eq!(parse_net_address(":9735").unwrap_err(), TranslationError::ParseError);
    assert_eq!(parse_net_address("host:port").unwrap_err(), TranslationError::ParseError);
    assert_eq!(parse_net_address("host:").unwrap_err(), TranslationError::ParseError);
    assert_eq!(parse_net_address("host:123456").unwrap_err(), TranslationError::ParseError);
}

#[test]
fn payment_hash_needs_exactly_32_bytes() {
    assert_eq!(
        payment_hash_from_bytes(&vec![0u8; 31]).unwrap_err(),
        TranslationError::InvalidLength
    );
    assert_eq!(
        payment_hash_from_bytes(&vec![0u8; 33]).unwrap_err(),
        TranslationError::InvalidLength
    );
    let h = payment_hash_from_bytes(&vec![0xabu8; 32]).unwrap();
    assert_eq!(h.internal, "ab".repeat(32));
    assert_eq!(payment_hash_to_bytes(&h).unwrap(), vec![0xabu8; 32]);
}

#[test]
fn status_tags_round_trip_in_order() {
    let all = [PaymentStatus::Pending, PaymentStatus::Succeeded, PaymentStatus::Failed];
    for (expected_tag, status) in all.iter().enumerate() {
        let tag = payment_status_to_tag(*status);
        assert_eq!(tag as usize, expected_tag);
        assert_eq!(payment_status_from_tag(tag), Some(*status));
    }
    assert_eq!(payment_status_from_tag(3), None);
}

#[test]
fn direction_tags_round_trip_in_order() {
    let all = [PaymentDirection::Inbound, PaymentDirection::Outbound];
    for (expected_tag, direction) in all.iter().enumerate() {
        let tag = payment_direction_to_tag(*direction);
        assert_eq!(tag as usize, expected_tag);
        assert_eq!(payment_direction_from_tag(tag), Some(*direction));
    }
    assert_eq!(payment_direction_from_tag(2), None);
}

#[test]
fn invoice_text_round_trips() {
    let hash = PaymentHash { internal: "1f".repeat(32) };
    for network in [Network::Bitcoin, Network::Testnet, Network::Signet, Network::Regtest] {
        for (has_amount, amount) in [(true, 123_456u64), (false, 0u64)] {
            for description in ["", "coffee: two cups", "snow \u{2603} man"] {
                let description = String::from(description);
                let text =
                    make_invoice_text(network, has_amount, amount, 3600, &description, &hash);
                let parsed = parse_invoice(&text).unwrap();
                assert_eq!(parsed.network, network);
                assert_eq!(parsed.has_amount, has_amount);
                assert_eq!(parsed.amount_msat, amount);
                assert_eq!(parsed.expiry_secs, 3600);
                assert_eq!(parsed.description, description);
                assert_eq!(parsed.hash.internal, hash.internal);
                assert_eq!(
                    make_invoice_text(
                        network,
                        has_amount,
                        amount,
                        parsed.expiry_secs,
                        &parsed.description,
                        &parsed.hash
                    ),
                    text
                );
            }
        }
    }
}

#[test]
fn invoice_text_exact_value() {
    let hash = PaymentHash { internal: "ab".repeat(32) };
    let text = make_invoice_text(Network::Bitcoin, true, 258, 60, &String::from("hi"), &hash);
    assert_eq!(
        text,
        format!(
            "lnbc12010000000000000c3000000000000002000000000000000hi{}",
            "ab".repeat(32)
        )
    );
}

#[test]
fn invoice_parsing_rejects_malformed_text() {
    assert_eq!(parse_invoice("").unwrap_err(), TranslationError::ParseError);
    assert_eq!(parse_invoice("lnbc").unwrap_err(), TranslationError::ParseError);
    let hash = PaymentHash { internal: "1f".repeat(32) };
    let good = make_invoice_text(Network::Bitcoin, true, 5, 60, &String::from("x"), &hash);
    let truncated = &good[..good.len() - 1];
    assert_eq!(parse_invoice(truncated).unwrap_err(), TranslationError::ParseError);
    let bad_flag = good.replacen('1', "z", 1);
    assert!(parse_invoice(&bad_flag).is_err());
}
