use elven_nft_minter::ElvenTools;
use elven_nft_minter::minter::Minter;
use elven_nft_minter::storage::Storage;

#[test]
fn init_test() {
    let mut sc = Minter::new();
    let image_base_cid = b"imageIpfsCID".to_vec();
    let metadata_base_cid = b"metadataIpfsCID".to_vec();
    let number_of_tokens: u32 = 10000;
    let tokens_limit_per_address: u32 = 3;
    let royalties: u128 = 1000;
    let selling_price: u128 = 1000000000000000000;
    let tags = Some(b"tags:tag1,tag2".to_vec());
    let provenance_hash = Some(b"provenanceHash".to_vec());
    let file_extension = Some(b".jpg".to_vec());
    let is_metadata_in_uris = Some(true);

    let result = sc.init(
        image_base_cid,
        metadata_base_cid,
        number_of_tokens,
        tokens_limit_per_address,
        royalties,
        selling_price,
        file_extension,
        tags,
        provenance_hash,
        is_metadata_in_uris,
    );
    assert_eq!(result, Ok(()));
    assert_eq!(sc.image_base_cid(), b"imageIpfsCID".to_vec());
    assert_eq!(sc.metadata_base_cid(), b"metadataIpfsCID".to_vec());
    assert_eq!(sc.amount_of_tokens_total(), 10000);
    assert_eq!(sc.tokens_limit_per_address_total(), 3);
    assert_eq!(sc.royalties(), 1000);
    assert_eq!(sc.selling_price(), 1000000000000000000);
    assert_eq!(sc.file_extension(), b".jpg".to_vec());
    assert_eq!(sc.tags(), b"tags:tag1,tag2".to_vec());
    assert_eq!(sc.provenance_hash(), b"provenanceHash".to_vec());
    assert!(sc.is_metadata_in_uris());
    assert!(sc.paused());
}
