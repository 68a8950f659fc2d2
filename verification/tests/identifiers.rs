use mcp_prompts_rs::models::ident::PromptId;

#[test]
fn canonical_text_is_lower_case_and_hyphenated() {
    let id = PromptId { bits: 0xa1a2a3a4_b1b2_c1c2_d1d2_d3d4d5d6d7d8 };
    assert_eq!(id.to_text(), "a1a2a3a4-b1b2-c1c2-d1d2-d3d4d5d6d7d8");
}

#[test]
fn canonical_text_of_zero_keeps_every_digit() {
    let id = PromptId { bits: 0 };
    assert_eq!(id.to_text(), "00000000-0000-0000-0000-000000000000");
}

#[test]
fn canonical_text_is_read_back() {
    let id = PromptId { bits: 0x0123_4567_89ab_cdef_0123_4567_89ab_cdef };
    assert_eq!(PromptId::parse(&id.to_text()), Some(id));
    assert_eq!(PromptId::from_canonical(&id.to_text()), Some(id));
}

#[test]
fn parse_accepts_the_other_forms_of_the_uuid_crate() {
    let id = PromptId { bits: 0xa1a2a3a4_b1b2_c1c2_d1d2_d3d4d5d6d7d8 };
    assert_eq!(PromptId::parse("a1a2a3a4b1b2c1c2d1d2d3d4d5d6d7d8"), Some(id));
    assert_eq!(PromptId::parse("A1A2A3A4-B1B2-C1C2-D1D2-D3D4D5D6D7D8"), Some(id));
    assert_eq!(PromptId::parse("{a1a2a3a4-b1b2-c1c2-d1d2-d3d4d5d6d7d8}"), Some(id));
    assert_eq!(PromptId::parse("urn:uuid:a1a2a3a4-b1b2-c1c2-d1d2-d3d4d5d6d7d8"), Some(id));
}

#[test]
fn parse_rejects_malformed_text() {
    assert_eq!(PromptId::parse(""), None);
    assert_eq!(PromptId::parse("not-a-uuid"), None);
    assert_eq!(PromptId::parse("a1a2a3a4-b1b2-c1c2-d1d2-d3d4d5d6d7"), None);
    assert_eq!(PromptId::parse("g1a2a3a4-b1b2-c1c2-d1d2-d3d4d5d6d7d8"), None);
}

#[test]
fn from_canonical_accepts_the_canonical_text_only() {
    let id = PromptId { bits: 0xa1a2a3a4_b1b2_c1c2_d1d2_d3d4d5d6d7d8 };
    assert_eq!(PromptId::from_canonical("a1a2a3a4-b1b2-c1c2-d1d2-d3d4d5d6d7d8"), Some(id));
    assert_eq!(PromptId::from_canonical("A1A2A3A4-B1B2-C1C2-D1D2-D3D4D5D6D7D8"), None);
    assert_eq!(PromptId::from_canonical("a1a2a3a4b1b2c1c2d1d2d3d4d5d6d7d8"), None);
    assert_eq!(PromptId::from_canonical("{a1a2a3a4-b1b2-c1c2-d1d2-d3d4d5d6d7d8}"), None);
    assert_eq!(PromptId::from_canonical(""), None);
}
