use monsoon::category::{AnimeKind, MediaCategory, ParseMediaCategoryError};

#[test]
fn encode_anime_sub_english() {
    assert_eq!(MediaCategory::Anime(Some(AnimeKind::SubEnglish)).encode(), (1, 2));
    assert_eq!(MediaCategory::All.encode(), (0, 0));
    assert_eq!(MediaCategory::Software(None).encode(), (6, 0));
}

#[test]
fn decode_rejects_unknown_numbers() {
    assert_eq!(MediaCategory::decode([7, 0]), Err(ParseMediaCategoryError::InvalidCategory(7)));
    assert_eq!(
        MediaCategory::decode([2, 3]),
        Err(ParseMediaCategoryError::InvalidSubCategory(MediaCategory::Audio(None), 3))
    );
    assert_eq!(MediaCategory::decode([1, 4]), Ok(MediaCategory::Anime(Some(AnimeKind::Raw))));
    assert_eq!(MediaCategory::decode([0, 9]), Ok(MediaCategory::All));
}

#[test]
fn parse_category_text() {
    assert_eq!("1_2".parse::<MediaCategory>(), Ok(MediaCategory::Anime(Some(AnimeKind::SubEnglish))));
    assert_eq!(
        "1".parse::<MediaCategory>(),
        Err(ParseMediaCategoryError::InvalidString("1".to_string()))
    );
    assert_eq!("3_0_9".parse::<MediaCategory>(), Ok(MediaCategory::Literature(None)));
}

#[test]
fn from_str_reads_as_parse_does() {
    for text in ["0_0", "1_2", "6_2", "6_3", "7_0", "x_1", "1_", "", "+1_+2", "1_2_3", "256_0"] {
        assert_eq!(<MediaCategory as std::str::FromStr>::from_str(text), MediaCategory::parse(text), "{text}");
    }
    assert_eq!("+1_+2".parse::<MediaCategory>(), Ok(MediaCategory::Anime(Some(AnimeKind::SubEnglish))));
    assert_eq!(
        "256_0".parse::<MediaCategory>(),
        Err(ParseMediaCategoryError::InvalidString("256_0".to_string()))
    );
}
