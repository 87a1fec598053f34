use jetscii::AsciiChars;
use jetscii::search::scalar_fallback_scan;

fn space() -> AsciiChars {
    AsciiChars { needle: 0x0000000000000020, count: 1 }
}

// < > &
fn xml_delim_3() -> AsciiChars {
    AsciiChars { needle: 0x00000000003c3e26, count: 3 }
}

// < > & ' "
fn xml_delim_5() -> AsciiChars {
    AsciiChars { needle: 0x0000003c3e262722, count: 5 }
}

fn naive_find(set: &[u8], haystack: &str) -> Option<usize> {
    haystack.as_bytes().iter().position(|b| set.contains(b))
}

#[test]
fn works_as_find_does_for_single_characters() {
    let cases = ["", "a", "hello world", "sphinx of black quartz", "zzzzzzzzzzzzzzzzzzzzzzzzzw"];
    for s in cases {
        for c in [b'a', b'o', b'w', b'z'] {
            let mut searcher = AsciiChars::new();
            searcher.push(c);
            assert_eq!(s.find(c as char), searcher.find(s.as_bytes()));
        }
    }
}

#[test]
fn works_as_find_does_for_multiple_characters() {
    let cases = ["", "a", "hello world", "sphinx of black quartz", "zzzzzzzzzzzzzzzzzzzzzzzzzw"];
    for s in cases {
        let set = [b'o', b'f', b'q', b'w'];
        let mut searcher = AsciiChars::new();
        for c in set {
            searcher.push(c);
        }
        assert_eq!(naive_find(&set, s), searcher.find(s.as_bytes()));
    }
}

#[test]
fn can_search_for_nul_bytes() {
    let mut s = AsciiChars::new();
    s.push(b'\0');
    assert_eq!(Some(1), s.find("a\0".as_bytes()));
    assert_eq!(Some(0), s.find("\0".as_bytes()));
    assert_eq!(None, s.find("".as_bytes()));
}

#[test]
fn can_search_in_nul_bytes() {
    let mut s = AsciiChars::new();
    s.push(b'a');
    assert_eq!(Some(1), s.find("\0a".as_bytes()));
    assert_eq!(None, s.find("\0".as_bytes()));
}

#[test]
fn space_is_found() {
    // Since the algorithm operates on 16-byte blocks, it's important to
    // cover the lengths around that boundary. Since 16 isn't that big of a
    // number, we might as well do all of them.

    assert_eq!(Some(0), space().find(" ".as_bytes()));
    assert_eq!(Some(1), space().find("0 ".as_bytes()));
    assert_eq!(Some(2), space().find("01 ".as_bytes()));
    assert_eq!(Some(3), space().find("012 ".as_bytes()));
    assert_eq!(Some(4), space().find("0123 ".as_bytes()));
    assert_eq!(Some(5), space().find("01234 ".as_bytes()));
    assert_eq!(Some(6), space().find("012345 ".as_bytes()));
    assert_eq!(Some(7), space().find("0123456 ".as_bytes()));
    assert_eq!(Some(8), space().find("01234567 ".as_bytes()));
    assert_eq!(Some(9), space().find("012345678 ".as_bytes()));
    assert_eq!(Some(10), space().find("0123456789 ".as_bytes()));
    assert_eq!(Some(11), space().find("0123456789A ".as_bytes()));
    assert_eq!(Some(12), space().find("0123456789AB ".as_bytes()));
    assert_eq!(Some(13), space().find("0123456789ABC ".as_bytes()));
    assert_eq!(Some(14), space().find("0123456789ABCD ".as_bytes()));
    assert_eq!(Some(15), space().find("0123456789ABCDE ".as_bytes()));
    assert_eq!(Some(16), space().find("0123456789ABCDEF ".as_bytes()));
    assert_eq!(Some(17), space().find("0123456789ABCDEFG ".as_bytes()));
}

#[test]
fn space_not_found() {
    // Since the algorithm operates on 16-byte blocks, it's important to
    // cover the lengths around that boundary. Since 16 isn't that big of a
    // number, we might as well do all of them.

    assert_eq!(None, space().find("".as_bytes()));
    assert_eq!(None, space().find("0".as_bytes()));
    assert_eq!(None, space().find("01".as_bytes()));
    assert_eq!(None, space().find("012".as_bytes()));
    assert_eq!(None, space().find("0123".as_bytes()));
    assert_eq!(None, space().find("01234".as_bytes()));
    assert_eq!(None, space().find("012345".as_bytes()));
    assert_eq!(None, space().find("0123456".as_bytes()));
    assert_eq!(None, space().find("01234567".as_bytes()));
    assert_eq!(None, space().find("012345678".as_bytes()));
    assert_eq!(None, space().find("0123456789".as_bytes()));
    assert_eq!(None, space().find("0123456789A".as_bytes()));
    assert_eq!(None, space().find("0123456789AB".as_bytes()));
    assert_eq!(None, space().find("0123456789ABC".as_bytes()));
    assert_eq!(None, space().find("0123456789ABCD".as_bytes()));
    assert_eq!(None, space().find("0123456789ABCDE".as_bytes()));
    assert_eq!(None, space().find("0123456789ABCDEF".as_bytes()));
    assert_eq!(None, space().find("0123456789ABCDEFG".as_bytes()));
}

#[test]
fn works_on_nonaligned_beginnings() {
    // We have special code for haystacks whose first byte does not lie on a
    // 16-byte block boundary; walk the same haystack through every suffix.

    let s = "0123456789ABCDEF ".to_string();

    assert_eq!(Some(16), space().find(s[0..].as_bytes()));
    assert_eq!(Some(15), space().find(s[1..].as_bytes()));
    assert_eq!(Some(14), space().find(s[2..].as_bytes()));
    assert_eq!(Some(13), space().find(s[3..].as_bytes()));
    assert_eq!(Some(12), space().find(s[4..].as_bytes()));
    assert_eq!(Some(11), space().find(s[5..].as_bytes()));
    assert_eq!(Some(10), space().find(s[6..].as_bytes()));
    assert_eq!(Some(9), space().find(s[7..].as_bytes()));
    assert_eq!(Some(8), space().find(s[8..].as_bytes()));
    assert_eq!(Some(7), space().find(s[9..].as_bytes()));
    assert_eq!(Some(6), space().find(s[10..].as_bytes()));
    assert_eq!(Some(5), space().find(s[11..].as_bytes()));
    assert_eq!(Some(4), space().find(s[12..].as_bytes()));
    assert_eq!(Some(3), space().find(s[13..].as_bytes()));
    assert_eq!(Some(2), space().find(s[14..].as_bytes()));
    assert_eq!(Some(1), space().find(s[15..].as_bytes()));
    assert_eq!(Some(0), space().find(s[16..].as_bytes()));
    assert_eq!(None, space().find(s[17..].as_bytes()));
}

#[test]
fn works_with_every_anchor_lead() {
    // The search may anchor its 16-byte block grid anywhere within the
    // first block; the answer never depends on where.
    let with_space = "0123456789ABCDEFG ";
    let without_space = "0123456789ABCDEFG";
    for lead in 0..16 {
        assert_eq!(Some(17), space().find_anchored(with_space.as_bytes(), lead));
        assert_eq!(None, space().find_anchored(without_space.as_bytes(), lead));
        assert_eq!(None, space().find_anchored("".as_bytes(), lead));
        assert_eq!(Some(0), space().find_anchored(" ".as_bytes(), lead));
    }
}

#[test]
fn works_at_page_boundary() {
    // The block-oriented scan reads 16 bytes at a time only within blocks
    // that hold in-bounds haystack bytes, so a haystack ending flush against
    // the end of accessible memory is safe to search. Check all suffixes of
    // a 16-byte haystack, searching for its last character.

    let text = "0123456789abcdef";

    let mut needle = AsciiChars::new();
    needle.push(b'f');

    for offset in 0..text.len() {
        let tail = &text[offset..];
        assert_eq!(Some(tail.len() - 1), needle.find(tail.as_bytes()));
    }
}

#[test]
fn xml_delim_3_is_found() {
    assert_eq!(Some(0), xml_delim_3().find("<".as_bytes()));
    assert_eq!(Some(0), xml_delim_3().find(">".as_bytes()));
    assert_eq!(Some(0), xml_delim_3().find("&".as_bytes()));
    assert_eq!(None, xml_delim_3().find("".as_bytes()));
}

#[test]
fn xml_delim_5_is_found() {
    assert_eq!(Some(0), xml_delim_5().find("<".as_bytes()));
    assert_eq!(Some(0), xml_delim_5().find(">".as_bytes()));
    assert_eq!(Some(0), xml_delim_5().find("&".as_bytes()));
    assert_eq!(Some(0), xml_delim_5().find("'".as_bytes()));
    assert_eq!(Some(0), xml_delim_5().find("\"".as_bytes()));
    assert_eq!(None, xml_delim_5().find("".as_bytes()));
}

#[test]
fn agrees_with_scalar_fallback_scan() {
    let cases =
        ["", " ", "x", "hello w orld", "0123456789ABCDEF", "0123456789ABCDEF ", "           "];
    for s in cases {
        let fast = space().find(s.as_bytes());
        let slow = scalar_fallback_scan(|b| b == b' ', s.as_bytes());
        assert_eq!(fast, slow);
    }
    for s in cases {
        let fast = xml_delim_3().find(s.as_bytes());
        let slow = scalar_fallback_scan(|b| b == b'<' || b == b'>' || b == b'&', s.as_bytes());
        assert_eq!(fast, slow);
    }
}

#[test]
fn empty_haystack_never_matches() {
    assert_eq!(None, space().find("".as_bytes()));
    assert_eq!(None, xml_delim_3().find("".as_bytes()));
    assert_eq!(None, xml_delim_5().find("".as_bytes()));
    assert_eq!(None, AsciiChars::new().find("".as_bytes()));
}

#[test]
fn membership_follows_pushes() {
    let mut s = AsciiChars::new();
    assert_eq!(0, s.count);
    let all = [b'a', b'b', b'c', b'd', b'e', b'f', b'g', b'h'];
    for (i, c) in all.iter().enumerate() {
        s.push(*c);
        assert_eq!(i as u8 + 1, s.count);
    }
    for c in all {
        assert!(s.contains_byte(c));
    }
    assert!(!s.contains_byte(b'z'));
    assert!(!s.contains_byte(b'\0'));
}

#[test]
fn renders_the_set_as_a_literal_constant() {
    assert_eq!(
        "AsciiChars { needle: 0x0000000000000020, count: 1 }",
        space().literal_string().as_str()
    );
    assert_eq!(
        "AsciiChars { needle: 0x00000000003c3e26, count: 3 }",
        xml_delim_3().literal_string().as_str()
    );
    let mut built = AsciiChars::new();
    assert_eq!(
        "AsciiChars { needle: 0x0000000000000000, count: 0 }",
        built.literal_string().as_str()
    );
    built.push(b'-');
    built.push(b':');
    assert_eq!(
        "AsciiChars { needle: 0x0000000000002d3a, count: 2 }",
        built.literal_string().as_str()
    );
}

#[test]
fn literal_constant_matches_pushed_set() {
    // The packed form that the public fields expose can be spelled out as a
    // literal to avoid rebuilding a frequently used set.
    let mut pushed = AsciiChars::new();
    pushed.push(b'<');
    pushed.push(b'>');
    pushed.push(b'&');
    let literal = xml_delim_3();
    assert_eq!(pushed.needle, literal.needle);
    assert_eq!(pushed.count, literal.count);
}
