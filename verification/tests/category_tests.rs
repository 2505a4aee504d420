use nft_manager::category::Category;
use nft_manager::errors::ValidationError;

#[test]
fn test_parse_named_tags() {
    assert_eq!(Category::parse("art"), Ok(Category::Art));
    assert_eq!(Category::parse("Art"), Ok(Category::Art));
    assert_eq!(Category::parse("ART"), Ok(Category::Art));
    assert_eq!(Category::parse("music"), Ok(Category::Music));
    assert_eq!(
        Category::parse("Virtual Real Estate"),
        Ok(Category::VirtualRealEstate)
    );
    assert_eq!(Category::parse("collectible"), Ok(Category::Collectible));
    assert_eq!(Category::parse("Game Item"), Ok(Category::GameItem));
}

#[test]
fn test_parse_free_text() {
    assert_eq!(
        Category::parse("Arte"),
        Ok(Category::Other("Arte".to_string()))
    );
    assert_eq!(
        Category::parse("Colecionável"),
        Ok(Category::Other("Colecionável".to_string()))
    );
}

#[test]
fn test_parse_blank_text_rejected() {
    assert_eq!(Category::parse(""), Err(ValidationError::EmptyCategory));
    assert_eq!(Category::parse("   "), Err(ValidationError::EmptyCategory));
    assert_eq!(Category::parse(" \t "), Err(ValidationError::EmptyCategory));
}

#[test]
fn test_category_text() {
    assert_eq!(Category::Art.to_text(), "Art");
    assert_eq!(Category::Music.to_text(), "Music");
    assert_eq!(Category::VirtualRealEstate.to_text(), "Virtual Real Estate");
    assert_eq!(Category::Collectible.to_text(), "Collectible");
    assert_eq!(Category::GameItem.to_text(), "Game Item");
    assert_eq!(
        Category::Other("Arte".to_string()).to_text(),
        "Other: Arte"
    );
}
