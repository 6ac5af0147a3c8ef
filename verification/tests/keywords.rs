use extension_bridge::keywords::extract_activity_from_text;

#[test]
fn uppercase_text_still_matches() {
    // Would fail if the lowercasing step handed its input back unchanged.
    assert_eq!(extract_activity_from_text("Block INSTAGRAM at work"), "instagram_activity");
}

#[test]
fn each_keyword_maps_to_its_tag() {
    assert_eq!(extract_activity_from_text("no more instagram"), "instagram_activity");
    assert_eq!(extract_activity_from_text("less insta please"), "instagram_activity");
    assert_eq!(extract_activity_from_text("stop watching youtube"), "youtube_activity");
    assert_eq!(extract_activity_from_text("quit twitter"), "twitter_activity");
    assert_eq!(extract_activity_from_text("avoid x.com entirely"), "twitter_activity");
    assert_eq!(extract_activity_from_text("no facebook"), "facebook_activity");
    assert_eq!(extract_activity_from_text("limit reddit time"), "reddit_activity");
    assert_eq!(extract_activity_from_text("ban TikTok"), "tiktok_activity");
}

#[test]
fn unmatched_text_maps_to_general() {
    assert_eq!(extract_activity_from_text("read more books"), "general_activity");
    assert_eq!(extract_activity_from_text(""), "general_activity");
}

#[test]
fn first_matching_row_wins() {
    assert_eq!(
        extract_activity_from_text("youtube and facebook and reddit"),
        "youtube_activity"
    );
}
