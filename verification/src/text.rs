use vstd::prelude::*;

verus! {

/// The ASCII decimal writing of `n`, most significant digit first, without leading zeros.
pub open spec fn decimal(n: nat) -> Seq<u8>
    decreases n,
{
    if n < 10 {
        seq![(48 + n) as u8]
    } else {
        decimal(n / 10).push((48 + n % 10) as u8)
    }
}

/// The IPFS gateway that prefixes every URI. (`https://ipfs.io/ipfs/`)
pub open spec fn spec_ipfs_gateway_host() -> Seq<u8> {
    seq![104u8, 116u8, 116u8, 112u8, 115u8, 58u8, 47u8, 47u8, 105u8, 112u8, 102u8, 115u8, 46u8, 105u8, 111u8, 47u8, 105u8, 112u8, 102u8, 115u8, 47u8]
}

/// The IPFS gateway that prefixes every URI.
pub fn ipfs_gateway_host() -> (r: Vec<u8>)
    ensures
        r@ == spec_ipfs_gateway_host(),
{
    let r: Vec<u8> = vec![104u8, 116u8, 116u8, 112u8, 115u8, 58u8, 47u8, 47u8, 105u8, 112u8, 102u8, 115u8, 46u8, 105u8, 111u8, 47u8, 105u8, 112u8, 102u8, 115u8, 47u8];
    assert(r@ =~= spec_ipfs_gateway_host());
    r
}

/// The key that introduces the metadata path in the attributes. (`metadata:`)
pub open spec fn spec_metadata_key_name() -> Seq<u8> {
    seq![109u8, 101u8, 116u8, 97u8, 100u8, 97u8, 116u8, 97u8, 58u8]
}

/// The key that introduces the metadata path in the attributes.
pub fn metadata_key_name() -> (r: Vec<u8>)
    ensures
        r@ == spec_metadata_key_name(),
{
    let r: Vec<u8> = vec![109u8, 101u8, 116u8, 97u8, 100u8, 97u8, 116u8, 97u8, 58u8];
    assert(r@ =~= spec_metadata_key_name());
    r
}

/// The extension of the metadata files. (`.json`)
pub open spec fn spec_metadata_file_extension() -> Seq<u8> {
    seq![46u8, 106u8, 115u8, 111u8, 110u8]
}

/// The extension of the metadata files.
pub fn metadata_file_extension() -> (r: Vec<u8>)
    ensures
        r@ == spec_metadata_file_extension(),
{
    let r: Vec<u8> = vec![46u8, 106u8, 115u8, 111u8, 110u8];
    assert(r@ =~= spec_metadata_file_extension());
    r
}

/// The separator between attributes. (`;`)
pub open spec fn spec_attr_separator() -> Seq<u8> {
    seq![59u8]
}

/// The separator between attributes.
pub fn attr_separator() -> (r: Vec<u8>)
    ensures
        r@ == spec_attr_separator(),
{
    let r: Vec<u8> = vec![59u8];
    assert(r@ =~= spec_attr_separator());
    r
}

/// The path separator of URIs. (`/`)
pub open spec fn spec_uri_slash() -> Seq<u8> {
    seq![47u8]
}

/// The path separator of URIs.
pub fn uri_slash() -> (r: Vec<u8>)
    ensures
        r@ == spec_uri_slash(),
{
    let r: Vec<u8> = vec![47u8];
    assert(r@ =~= spec_uri_slash());
    r
}

/// The key that introduces the tags in the attributes. (`tags:`)
pub open spec fn spec_tags_key_name() -> Seq<u8> {
    seq![116u8, 97u8, 103u8, 115u8, 58u8]
}

/// The key that introduces the tags in the attributes.
pub fn tags_key_name() -> (r: Vec<u8>)
    ensures
        r@ == spec_tags_key_name(),
{
    let r: Vec<u8> = vec![116u8, 97u8, 103u8, 115u8, 58u8];
    assert(r@ =~= spec_tags_key_name());
    r
}

/// What separates the base name of an NFT from its number. (` #`)
pub open spec fn spec_hash_and_space() -> Seq<u8> {
    seq![32u8, 35u8]
}

/// What separates the base name of an NFT from its number.
pub fn hash_and_space() -> (r: Vec<u8>)
    ensures
        r@ == spec_hash_and_space(),
{
    let r: Vec<u8> = vec![32u8, 35u8];
    assert(r@ =~= spec_hash_and_space());
    r
}

/// The image file extension used when none is given. (`.png`)
pub open spec fn spec_default_img_file_extension() -> Seq<u8> {
    seq![46u8, 112u8, 110u8, 103u8]
}

/// The image file extension used when none is given.
pub fn default_img_file_extension() -> (r: Vec<u8>)
    ensures
        r@ == spec_default_img_file_extension(),
{
    let r: Vec<u8> = vec![46u8, 112u8, 110u8, 103u8];
    assert(r@ =~= spec_default_img_file_extension());
    r
}

/// `out` followed by the bytes of `src`.
pub fn append_bytes(out: &mut Vec<u8>, src: &Vec<u8>)
    ensures
        final(out)@ == old(out)@ + src@,
{
    let ghost start = out@;
    let mut i: usize = 0;
    while i < src.len()
        invariant
            i <= src@.len(),
            out@ == start + src@.subrange(0, i as int),
        decreases src@.len() - i,
    {
        out.push(src[i]);
        i = i + 1;
        assert(out@ =~= start + src@.subrange(0, i as int));
    }
    assert(src@.subrange(0, src@.len() as int) =~= src@);
}

/// A copy of `src`.
pub fn copy_bytes(src: &Vec<u8>) -> (r: Vec<u8>)
    ensures
        r@ == src@,
{
    let mut r: Vec<u8> = Vec::new();
    append_bytes(&mut r, src);
    assert(r@ =~= src@);
    r
}

/// Writes `number` in ASCII decimal digits.
pub fn decimal_to_ascii(number: u32) -> (r: Vec<u8>)
    ensures
        r@ == decimal(number as nat),
{
    let mut n: u32 = number / 10;
    let mut out: Vec<u8> = Vec::new();
    out.push(48u8 + (number % 10) as u8);
    assert(out@ =~= seq![(48 + number as nat % 10) as u8]);
    while n > 0
        invariant
            decimal(number as nat) == (if n == 0 { Seq::<u8>::empty() } else { decimal(n as nat) }) + out@,
        decreases n,
    {
        let ghost prev = out@;
        out.insert(0, 48u8 + (n % 10) as u8);
        let ghost m = n as nat;
        n = n / 10;
        assert(decimal(m) == (if n == 0 { Seq::<u8>::empty() } else { decimal(n as nat) }).push((48 + m % 10) as u8));
        assert(out@ =~= seq![(48 + m % 10) as u8] + prev);
        assert((if n == 0 { Seq::<u8>::empty() } else { decimal(n as nat) }) + out@ =~=
            (if n == 0 { Seq::<u8>::empty() } else { decimal(n as nat) }).push((48 + m % 10) as u8) + prev);
    }
    assert(Seq::<u8>::empty() + out@ =~= out@);
    out
}

/// The name of the NFT with collection index `index`.
pub open spec fn spec_token_name(base: Seq<u8>, no_number: bool, index: u32) -> Seq<u8> {
    if no_number {
        base
    } else {
        base + spec_hash_and_space() + decimal(index as nat)
    }
}

/// The attributes of the NFT with collection index `index`.
pub open spec fn spec_attributes(tags: Seq<u8>, metadata_cid: Seq<u8>, index: u32) -> Seq<u8> {
    spec_tags_key_name() + tags + spec_attr_separator() + spec_metadata_key_name() + metadata_cid
        + spec_uri_slash() + decimal(index as nat) + spec_metadata_file_extension()
}

/// The gateway URI of the image of the NFT with collection index `index`.
pub open spec fn spec_image_uri(image_cid: Seq<u8>, file_extension: Seq<u8>, index: u32) -> Seq<u8> {
    spec_ipfs_gateway_host() + image_cid + spec_uri_slash() + decimal(index as nat) + file_extension
}

/// The gateway URI of the metadata file of the NFT with collection index `index`.
pub open spec fn spec_metadata_uri(metadata_cid: Seq<u8>, index: u32) -> Seq<u8> {
    spec_ipfs_gateway_host() + metadata_cid + spec_uri_slash() + decimal(index as nat)
        + spec_metadata_file_extension()
}

/// The URIs of the NFT with collection index `index`: the image, then the metadata if asked for.
pub open spec fn spec_uris(
    image_cid: Seq<u8>,
    metadata_cid: Seq<u8>,
    file_extension: Seq<u8>,
    metadata_in_uris: bool,
    index: u32,
) -> Seq<Seq<u8>> {
    if metadata_in_uris {
        seq![
            spec_image_uri(image_cid, file_extension, index),
            spec_metadata_uri(metadata_cid, index),
        ]
    } else {
        seq![spec_image_uri(image_cid, file_extension, index)]
    }
}

/// Builds the name of the NFT with collection index `index`.
pub fn token_name(base: &Vec<u8>, no_number: bool, index: u32) -> (r: Vec<u8>)
    ensures
        r@ == spec_token_name(base@, no_number, index),
{
    let mut r = copy_bytes(base);
    if !no_number {
        append_bytes(&mut r, &hash_and_space());
        append_bytes(&mut r, &decimal_to_ascii(index));
    }
    r
}

/// Builds the attributes of the NFT with collection index `index`.
pub fn attributes(tags: &Vec<u8>, metadata_cid: &Vec<u8>, index: u32) -> (r: Vec<u8>)
    ensures
        r@ == spec_attributes(tags@, metadata_cid@, index),
{
    let mut r = tags_key_name();
    append_bytes(&mut r, tags);
    append_bytes(&mut r, &attr_separator());
    append_bytes(&mut r, &metadata_key_name());
    append_bytes(&mut r, metadata_cid);
    append_bytes(&mut r, &uri_slash());
    append_bytes(&mut r, &decimal_to_ascii(index));
    append_bytes(&mut r, &metadata_file_extension());
    r
}

/// Builds the gateway URI `host + cid + "/" + index + extension`.
fn gateway_uri(cid: &Vec<u8>, index: u32, extension: &Vec<u8>) -> (r: Vec<u8>)
    ensures
        r@ == spec_ipfs_gateway_host() + cid@ + spec_uri_slash() + decimal(index as nat) + extension@,
{
    let mut r = ipfs_gateway_host();
    append_bytes(&mut r, cid);
    append_bytes(&mut r, &uri_slash());
    append_bytes(&mut r, &decimal_to_ascii(index));
    append_bytes(&mut r, extension);
    r
}

/// Builds the URIs of the NFT with collection index `index`.
pub fn uris(
    image_cid: &Vec<u8>,
    metadata_cid: &Vec<u8>,
    file_extension: &Vec<u8>,
    metadata_in_uris: bool,
    index: u32,
) -> (r: Vec<Vec<u8>>)
    ensures
        r@.map_values(|u: Vec<u8>| u@) == spec_uris(
            image_cid@,
            metadata_cid@,
            file_extension@,
            metadata_in_uris,
            index,
        ),
{
    let mut r: Vec<Vec<u8>> = Vec::new();
    r.push(gateway_uri(image_cid, index, file_extension));
    if metadata_in_uris {
        r.push(gateway_uri(metadata_cid, index, &metadata_file_extension()));
    }
    assert(r@.map_values(|u: Vec<u8>| u@) =~= spec_uris(
        image_cid@,
        metadata_cid@,
        file_extension@,
        metadata_in_uris,
        index,
    ));
    r
}

} // verus!
