use nft_manager::category::Category;
use nft_manager::date::Date;
use nft_manager::errors::StorageError;
use nft_manager::nft::NFT;
use nft_manager::storage::FileStorage;

fn sample_records() -> Vec<NFT> {
    vec![
        NFT::new(
            "token_a".to_string(),
            1u64,
            Date::from_ymd_opt(2023, 1, 2).unwrap(),
            Category::Art,
        ),
        NFT::new(
            "Colecionável".to_string(),
            u64::MAX,
            Date::from_ymd_opt(2024, 2, 29).unwrap(),
            Category::Other("Jogo difícil".to_string()),
        ),
        NFT::new(
            "token_c".to_string(),
            3u64,
            Date::from_ymd_opt(1999, 12, 31).unwrap(),
            Category::GameItem,
        ),
    ]
}

#[test]
fn test_bytes_round_trip() {
    let mut storage = FileStorage::new("nfts.db");
    let records = sample_records();
    storage.save_all(&records).unwrap();

    let blob = storage.to_bytes();
    let mut restored = FileStorage::from_bytes("nfts.db", Some(&blob)).unwrap();
    let loaded = restored.load_all().unwrap();

    assert_eq!(loaded, records);
}

#[test]
fn test_bytes_round_trip_empty() {
    let storage = FileStorage::new("nfts.db");
    let blob = storage.to_bytes();
    let mut restored = FileStorage::from_bytes("nfts.db", Some(&blob)).unwrap();
    assert_eq!(restored.load_all().unwrap().len(), 0);
}

#[test]
fn test_empty_store_exact_bytes() {
    let storage = FileStorage::new("nfts.db");
    assert_eq!(storage.to_bytes(), vec![0u8; 8]);
}

#[test]
fn test_single_record_exact_bytes() {
    let nft = NFT::new(
        "A".to_string(),
        7u64,
        Date::from_ymd_opt(2023, 1, 2).unwrap(),
        Category::Art,
    );
    let mut storage = FileStorage::new("nfts.db");
    storage.save(&nft).unwrap();

    let expected: Vec<u8> = vec![
        1, 0, 0, 0, 0, 0, 0, 0, // one record
        1, 0, 0, 0, 0, 0, 0, 0, // token identifier: one character
        65, 0, 0, 0, // 'A'
        7, 0, 0, 0, 0, 0, 0, 0, // owner identifier
        0xE7, 0x07, 0, 0, // year 2023
        1, 0, 0, 0, // month
        2, 0, 0, 0, // day
        0, // category tag
    ];
    assert_eq!(storage.to_bytes(), expected);
}

#[test]
fn test_absent_file_is_empty_store() {
    let mut storage = FileStorage::from_bytes("missing_nfts.db", None).unwrap();
    assert_eq!(storage.load_all().unwrap().len(), 0);
    assert_eq!(storage.file_path, "missing_nfts.db");
}

#[test]
fn test_corrupt_bytes_give_decode_error() {
    let garbage = "dados inválidos".as_bytes().to_vec();
    let result = FileStorage::from_bytes("corrupted_nfts.db", Some(&garbage));
    assert_eq!(result.unwrap_err(), StorageError::Decode);
}

#[test]
fn test_trailing_bytes_give_decode_error() {
    let mut storage = FileStorage::new("nfts.db");
    let records = sample_records();
    storage.save_all(&records).unwrap();

    let mut blob = storage.to_bytes();
    blob.push(0u8);
    let result = FileStorage::from_bytes("nfts.db", Some(&blob));
    assert_eq!(result.unwrap_err(), StorageError::Decode);
}

#[test]
fn test_truncated_bytes_give_decode_error() {
    let mut storage = FileStorage::new("nfts.db");
    let records = sample_records();
    storage.save_all(&records).unwrap();

    let mut blob = storage.to_bytes();
    blob.pop();
    let result = FileStorage::from_bytes("nfts.db", Some(&blob));
    assert_eq!(result.unwrap_err(), StorageError::Decode);
}

#[test]
fn test_save_appends_without_key_check() {
    let nft = NFT::new(
        "same_token".to_string(),
        7u64,
        Date::from_ymd_opt(2023, 5, 5).unwrap(),
        Category::Music,
    );
    let mut storage = FileStorage::new("nfts.db");
    storage.save(&nft).unwrap();
    storage.save(&nft).unwrap();
    assert_eq!(storage.load_all().unwrap().len(), 2);
}
