use nft_manager::category::Category;
use nft_manager::commands::{
    collect_nft_data_at, process_create_nft, process_delete_nft, process_update_nft,
    process_update_nft_at,
};
use nft_manager::date::Date;
use nft_manager::errors::{CommandError, ValidationError};
use nft_manager::nft::NFT;
use nft_manager::storage::FileStorage;

fn record(token: &str, owner: u64) -> NFT {
    NFT::new(
        token.to_string(),
        owner,
        Date::from_ymd_opt(2023, 11, 5).unwrap(),
        Category::Art,
    )
}

#[test]
fn test_create_then_read_single_token() {
    let mut storage = FileStorage::new("nfts.db");
    let nft = record("t1", 11);
    process_create_nft(&nft, &mut storage).unwrap();

    let nfts = storage.load_all().unwrap();
    let matching: Vec<&NFT> = nfts.iter().filter(|n| n.token_id == "t1").collect();
    assert_eq!(matching.len(), 1);
    assert_eq!(*matching[0], nft);
}

#[test]
fn test_update_missing_token_is_not_found() {
    let mut storage = FileStorage::new("nfts.db");
    process_create_nft(&record("t1", 11), &mut storage).unwrap();
    let before = storage.load_all().unwrap();

    let result = process_update_nft("ghost", 99, &mut storage);
    assert_eq!(result.unwrap_err(), CommandError::NotFound);

    let after = storage.load_all().unwrap();
    assert_eq!(before, after);
}

#[test]
fn test_delete_removes_exactly_matching() {
    let mut storage = FileStorage::new("nfts.db");
    process_create_nft(&record("t1", 11), &mut storage).unwrap();
    process_create_nft(&record("t2", 22), &mut storage).unwrap();

    process_delete_nft("t1", &mut storage).unwrap();

    let nfts = storage.load_all().unwrap();
    assert_eq!(nfts.len(), 1);
    assert_eq!(nfts[0].token_id, "t2");
}

#[test]
fn test_delete_missing_token_is_not_found() {
    let mut storage = FileStorage::new("nfts.db");
    process_create_nft(&record("t1", 11), &mut storage).unwrap();

    let result = process_delete_nft("ghost", &mut storage);
    assert_eq!(result.unwrap_err(), CommandError::NotFound);
    assert_eq!(storage.load_all().unwrap().len(), 1);
}

#[test]
fn test_read_twice_identical() {
    let mut storage = FileStorage::new("nfts.db");
    process_create_nft(&record("t1", 11), &mut storage).unwrap();
    process_create_nft(&record("t2", 22), &mut storage).unwrap();

    let first = storage.load_all().unwrap();
    let second = storage.load_all().unwrap();
    assert_eq!(first, second);
}

#[test]
fn test_update_changes_only_owner() {
    let mut storage = FileStorage::new("nfts.db");
    process_create_nft(&record("t1", 11), &mut storage).unwrap();
    process_create_nft(&record("t2", 22), &mut storage).unwrap();

    process_update_nft("t2", 99, &mut storage).unwrap();

    let nfts = storage.load_all().unwrap();
    assert_eq!(nfts[0], record("t1", 11));
    assert_eq!(nfts[1], record("t2", 99));
}

#[test]
fn test_update_to_zero_owner_rejected() {
    let today = Date::from_ymd_opt(2024, 1, 1).unwrap();
    let mut storage = FileStorage::new("nfts.db");
    process_create_nft(&record("t1", 11), &mut storage).unwrap();

    let result = process_update_nft_at("t1", 0, &mut storage, &today);
    assert_eq!(
        result.unwrap_err(),
        CommandError::Validation(ValidationError::NonPositiveOwnerId)
    );
    assert_eq!(storage.load_all().unwrap()[0].owner_id, 11);
}

#[test]
fn test_validation_error_variants() {
    let today = Date::from_ymd_opt(2024, 1, 1).unwrap();
    let date = Date::from_ymd_opt(2023, 11, 5).unwrap();

    let blank_token = collect_nft_data_at(" ".to_string(), 1, date, Category::Art, &today);
    assert_eq!(blank_token.unwrap_err(), ValidationError::EmptyTokenId);

    let zero_owner = collect_nft_data_at("t".to_string(), 0, date, Category::Art, &today);
    assert_eq!(zero_owner.unwrap_err(), ValidationError::NonPositiveOwnerId);

    let malformed = Date { year: 2023, month: 2, day: 30 };
    let bad_date = collect_nft_data_at("t".to_string(), 1, malformed, Category::Art, &today);
    assert_eq!(bad_date.unwrap_err(), ValidationError::MalformedCreationDate);

    let future = Date::from_ymd_opt(2024, 1, 2).unwrap();
    let future_date = collect_nft_data_at("t".to_string(), 1, future, Category::Art, &today);
    assert_eq!(future_date.unwrap_err(), ValidationError::FutureCreationDate);

    let blank_cat = collect_nft_data_at(
        "t".to_string(),
        1,
        date,
        Category::Other("  ".to_string()),
        &today,
    );
    assert_eq!(blank_cat.unwrap_err(), ValidationError::EmptyCategory);

    let fine = collect_nft_data_at("t".to_string(), 1, date, Category::Art, &today);
    assert!(fine.is_ok());
}

#[test]
fn test_validate_future_date_against_clock() {
    let nft = record("t1", 1);
    let far_future = NFT::new(
        "t1".to_string(),
        1,
        Date::from_ymd_opt(9999, 12, 30).unwrap(),
        Category::Art,
    );
    assert!(nft.validate().is_ok());
    assert_eq!(
        far_future.validate().unwrap_err(),
        ValidationError::FutureCreationDate
    );
}
