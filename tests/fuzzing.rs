use zip_diff::bytes_mutation::{bytes_mutations, BytesMutation};
use zip_diff::corpus::{Corpus, Input, Seed};
use zip_diff::feature::Feature;
use zip_diff::fields::CompressionMethod;
use zip_diff::fingerprint::{
    digest, dir_digest, entry_digest, file_digest, is_plain_name, sort_digests, tree_digest,
    ParsingResult, Tree,
};
use rand::thread_rng;
use zip_diff::rng::{len_from_bits, rand_len};
use zip_diff::zip::ZipArchive;
use zip_diff::zip_mutation::{apply_bytes_arm, apply_zip_arm, zip_mutations, ZipArmOutcome, ZipMutation};

fn feature(n: usize, ok: &[usize], incons: &[usize]) -> Feature {
    let mut f = Feature::new(n);
    for &i in ok {
        f.ok.insert(i);
    }
    for &i in incons {
        f.inconsistency.insert(i);
    }
    f
}

fn seed(f: Feature, tag: u8) -> Seed {
    Seed::new(Input::Bytes(vec![tag]), [tag; 32], 1, f, vec![], false)
}

#[test]
fn inconsistency_needs_two_trees() {
    let a = ParsingResult::Tree([1; 32]);
    let b = ParsingResult::Tree([2; 32]);
    let e = ParsingResult::Missing;
    assert!(!a.inconsistent_with(&e));
    assert!(!e.inconsistent_with(&a));
    assert!(!e.inconsistent_with(&e));
    assert!(a.inconsistent_with(&b));
    assert!(!a.inconsistent_with(&ParsingResult::Tree([1; 32])));
}

#[test]
fn special_names_share_a_digest() {
    let child = file_digest(b"content");
    assert!(is_plain_name(b"a-b_c.[1]"));
    assert!(!is_plain_name("é".as_bytes()));
    assert!(!is_plain_name(b"a b"));
    assert_eq!(entry_digest("é".as_bytes(), &child), entry_digest(b"a b", &child));
    assert_ne!(entry_digest(b"ab", &child), entry_digest(b"a b", &child));
    assert_ne!(entry_digest(b"ab", &child), entry_digest(b"ac", &child));
    let mut expected = b"Nab".to_vec();
    expected.extend_from_slice(&child);
    assert_eq!(entry_digest(b"ab", &child), *blake3::hash(&expected).as_bytes());
}

#[test]
fn directory_digest_ignores_child_order() {
    let x = digest(b"x");
    let y = digest(b"y");
    assert_eq!(dir_digest(&vec![x, y]), dir_digest(&vec![y, x]));
    assert_eq!(dir_digest(&vec![]), None);
    let mut sorted = vec![x, y];
    sorted.sort();
    let mut body = b"D".to_vec();
    body.extend_from_slice(&sorted[0]);
    body.extend_from_slice(&sorted[1]);
    assert_eq!(dir_digest(&vec![y, x]), Some(*blake3::hash(&body).as_bytes()));
    assert_eq!(sort_digests(&vec![y, x, y]), {
        let mut v = vec![y, x, y];
        v.sort();
        v
    });
    assert_eq!(digest(b"abc"), *blake3::hash(b"abc").as_bytes());
}

#[test]
fn feature_records_results() {
    let results = vec![
        ParsingResult::Tree([1; 32]),
        ParsingResult::Missing,
        ParsingResult::Tree([2; 32]),
        ParsingResult::Tree([1; 32]),
    ];
    let mut f = Feature::new(4);
    f.apply_results(&results);
    assert_eq!(f.ok.ones().collect::<Vec<_>>(), vec![0, 2, 3]);
    // pairs: (1,0)=0 (2,0)=1 (2,1)=2 (3,0)=3 (3,1)=4 (3,2)=5
    assert_eq!(f.inconsistency.ones().collect::<Vec<_>>(), vec![1, 5]);
    assert_eq!(f.ok_count(), 3);
    assert_eq!(f.incons_count(), 2);
    assert_eq!(f.consistent_pairs(), vec![0, 2, 3, 4]);
}

#[test]
fn merge_is_a_union() {
    let mut a = feature(3, &[0], &[1]);
    let b = feature(3, &[2], &[0]);
    a.merge(&b);
    assert_eq!(a.ok.ones().collect::<Vec<_>>(), vec![0, 2]);
    assert_eq!(a.inconsistency.ones().collect::<Vec<_>>(), vec![0, 1]);
    assert!(b.is_covered_by(&a));
    assert!(!a.is_covered_by(&b));
}

#[test]
fn corpus_stays_an_antichain() {
    let mut c = Corpus::new(3);
    let f1 = feature(3, &[0], &[]);
    assert!(c.is_feature_interesting(&f1));
    c.insert_seed(seed(f1, 1));
    let f2 = feature(3, &[1], &[]);
    assert!(c.is_feature_interesting(&f2));
    c.insert_seed(seed(f2, 2));
    assert_eq!(c.len(), 2);
    assert!(!c.is_feature_interesting(&feature(3, &[0], &[])));
    let f3 = feature(3, &[0, 1], &[2]);
    assert!(c.is_feature_interesting(&f3));
    c.insert_seed(seed(f3, 3));
    assert_eq!(c.len(), 1);
    assert_eq!(c.seed(0).hash, [3; 32]);
    assert_eq!(c.incons_count(), 1);
    assert_eq!(c.zip_count(), 0);
    c.record_selection(0);
    assert_eq!(c.seed(0).selection_count, 1);
    for i in 0..c.len() {
        for j in 0..c.len() {
            if i != j {
                assert!(!c.seed(i).feat.is_covered_by(&c.seed(j).feat));
            }
        }
    }
}

#[test]
fn rand_len_is_geometric() {
    assert_eq!(len_from_bits(1), 1);
    assert_eq!(len_from_bits(2), 2);
    assert_eq!(len_from_bits(8), 4);
    assert_eq!(len_from_bits(0), 65);
    assert_eq!(len_from_bits(1 << 63), 64);
    let mut rng = thread_rng();
    let n = 100_000;
    let mut counts = [0usize; 66];
    for _ in 0..n {
        let k = rand_len(&mut rng);
        assert!((1..=65).contains(&k));
        counts[k] += 1;
    }
    for k in 1..=4 {
        let expected = n as f64 / 2f64.powi(k as i32);
        let got = counts[k] as f64;
        assert!((got - expected).abs() < expected * 0.1, "k={k} got={got} expected={expected}");
    }
}

#[test]
fn byte_mutations_change_bytes() {
    let mut rng = thread_rng();
    assert_eq!(bytes_mutations().len(), 6);
    let mut empty = Vec::new();
    assert!(!BytesMutation::ModifyByte.mutate(&mut empty, &mut rng));
    assert!(!BytesMutation::DeleteBytes.mutate(&mut empty, &mut rng));
    let mut v = b"abcdef".to_vec();
    assert!(BytesMutation::InsertBytes.mutate(&mut v, &mut rng));
    assert!(v.len() > 6);
    let mut v = b"abcdef".to_vec();
    assert!(BytesMutation::DeleteBytes.mutate(&mut v, &mut rng));
    assert!(v.len() < 6);
    let mut v = b"abcdef".to_vec();
    assert!(BytesMutation::FlipBit.mutate(&mut v, &mut rng));
    assert_eq!(v.len(), 6);
    assert_eq!(v.iter().zip(b"abcdef").filter(|(a, b)| a != b).count(), 1);
    for m in bytes_mutations() {
        let mut v = b"0123456789".to_vec();
        assert!(m.mutate(&mut v, &mut rng), "{}", m.name());
    }
}

#[test]
fn zip_mutations_run() {
    let mut rng = thread_rng();
    assert_eq!(zip_mutations().len(), 46);
    let mut base = ZipArchive::new();
    base.add_simple("a", b"a").unwrap();
    base.add_file("b/c", b"cc", CompressionMethod(CompressionMethod::DEFLATED), false, false).unwrap();
    base.finalize().unwrap();
    for _ in 0..20 {
        for m in zip_mutations() {
            let mut z = base.clone();
            m.mutate(&mut z, &mut rng);
        }
    }
    let mut z = base.clone();
    assert!(ZipMutation::RemoveLfh.mutate(&mut z, &mut rng));
    assert_eq!(z.files.len(), 1);
    assert_eq!(z.cd.len(), 2);
    let mut z = base.clone();
    let before: Vec<u32> = z.cd.iter().map(|c| c.relative_header_offset).collect();
    assert!(ZipMutation::ModifyCdhRelativeHeaderOffset.mutate(&mut z, &mut rng));
    let after: Vec<u32> = z.cd.iter().map(|c| c.relative_header_offset).collect();
    assert_eq!(after.len(), 2);
    assert!(after[1] != before[1] || before[1] == 0);
    let mut z = ZipArchive::new();
    assert!(!ZipMutation::RemoveCdh.mutate(&mut z, &mut rng));
}

#[test]
fn pair_list_follows_bit_order() {
    assert_eq!(
        zip_diff::config::pair_list(4),
        vec![(1, 0), (2, 0), (2, 1), (3, 0), (3, 1), (3, 2)]
    );
    assert!(zip_diff::config::pair_list(1).is_empty());
}

#[test]
fn default_batch_size_takes_the_smaller_budget() {
    let gib = 1u64 << 30;
    assert_eq!(zip_diff::config::default_batch_size(64 * gib, 1000 * gib), 44);
    assert_eq!(zip_diff::config::default_batch_size(64 * gib, 10 * gib), 5);
    assert_eq!(zip_diff::config::default_batch_size(64 * gib + 1, 10 * gib + 1), 6);
    assert_eq!(zip_diff::config::default_batch_size(8 * gib, 10 * gib), 0);
}

#[test]
fn best_seed_prefers_short_histories() {
    let mut c = Corpus::new(3);
    let mut a = seed(feature(3, &[0], &[0]), 1);
    a.mutations = vec!["X", "Y"];
    c.insert_seed(a);
    let b = seed(feature(3, &[1], &[0]), 2);
    c.insert_seed(b);
    assert_eq!(c.len(), 2);
    assert_eq!(c.best_seed(0), Some(1));
    assert_eq!(c.best_seed(1), None);
}

#[test]
fn initial_corpus_has_batch_plus_one() {
    let mut rng = thread_rng();
    let seeds = zip_diff::generate::init_corpus(5, &mut rng);
    assert_eq!(seeds.len(), 6);
    let names: Vec<Vec<u8>> = seeds[0].files.iter().map(|f| f.lfh.file_name.clone()).collect();
    assert_eq!(names, vec![b"a".to_vec(), b"b/c".to_vec(), b"b/d".to_vec()]);
    assert_eq!(seeds[0].cd.len(), 3);
}

#[test]
fn diverging_parsers_leave_an_inconsistent_seed() {
    let mut zip = ZipArchive::new();
    zip.add_file("test", b"test", CompressionMethod(CompressionMethod::DEFLATED), false, false).unwrap();
    zip.finalize().unwrap();
    zip.files[0].lfh.compression_method = CompressionMethod(CompressionMethod::STORED);
    zip.files[0].lfh.compressed_size = 4;
    let bytes = zip_diff::encode::binary_encode(&zip);
    // one parser follows the local header, the other the central directory
    let stored_view = file_digest(&zip.files[0].data);
    let inflated = zip_diff::codec::decompress(CompressionMethod(CompressionMethod::DEFLATED), &zip.files[0].data).unwrap();
    let deflated_view = file_digest(&inflated);
    let a = ParsingResult::Tree(dir_digest(&vec![entry_digest(b"test", &stored_view)]).unwrap());
    let b = ParsingResult::Tree(dir_digest(&vec![entry_digest(b"test", &deflated_view)]).unwrap());
    let mut feat = Feature::new(2);
    feat.apply_results(&vec![a, b]);
    let mut corpus = Corpus::new(2);
    assert!(corpus.is_feature_interesting(&feat));
    corpus.insert_seed(Seed::new(Input::Zip(Box::new(zip)), digest(&bytes), bytes.len(), feat, vec![], false));
    assert_eq!(corpus.len(), 1);
    assert!(corpus.seed(0).feat.inconsistency.contains(0));
    assert_eq!(corpus.incons_count(), 1);
}

#[test]
fn offsets_shift_from_a_chosen_header() {
    let mut zip = ZipArchive::new();
    for n in ["a", "b", "c"] {
        zip.add_simple(n, b"x").unwrap();
    }
    zip.finalize().unwrap();
    let before: Vec<u32> = zip.cd.iter().map(|c| c.relative_header_offset).collect();
    zip_diff::zip_mutation::shift_offsets(&mut zip.cd, 1, 5, true);
    let after: Vec<u32> = zip.cd.iter().map(|c| c.relative_header_offset).collect();
    assert_eq!(after, vec![before[0], before[1] + 5, before[2] + 5]);
    zip_diff::zip_mutation::shift_offsets(&mut zip.cd, 0, 1000, false);
    assert!(zip.cd.iter().all(|c| c.relative_header_offset == 0));
}

#[test]
fn last_zip_arm_hands_over_bytes() {
    let mut rng = thread_rng();
    let mut zip = ZipArchive::new();
    zip.add_simple("a", b"a").unwrap();
    zip.finalize().unwrap();
    match apply_zip_arm(zip.clone(), 46, &mut rng) {
        ZipArmOutcome::ToBytes(b) => assert_eq!(b, zip_diff::encode::binary_encode(&zip)),
        _ => panic!("expected bytes"),
    }
    match apply_zip_arm(zip.clone(), 3, &mut rng) {
        ZipArmOutcome::Mutated(z, name) => {
            assert_eq!(name, "RemoveLfh");
            assert!(z.files.is_empty());
            assert_eq!(zip.files.len(), 1);
        }
        _ => panic!("expected a mutation"),
    }
    assert_eq!(apply_bytes_arm(&vec![], 0, &mut rng), None);
    assert_eq!(apply_bytes_arm(&vec![1, 2], 2, &mut rng).map(|v| v.len() > 2), Some(true));
}

#[test]
fn renaming_special_names_keeps_the_tree_digest() {
    let tree = |a: &str, b: &str| {
        Tree::Dir(vec![
            (a.as_bytes().to_vec(), Tree::File(b"one".to_vec())),
            (b.as_bytes().to_vec(), Tree::Dir(vec![(b"x".to_vec(), Tree::Link(b"../y".to_vec()))])),
            (b"empty".to_vec(), Tree::Dir(vec![])),
        ])
    };
    let base = tree_digest(&tree("é", "sub"));
    assert!(base.is_some());
    assert_eq!(tree_digest(&tree("a b", "sub")), base);
    assert_ne!(tree_digest(&tree("ab", "sub")), base);
    assert_ne!(tree_digest(&tree("é", "sub2")), base);
    assert_eq!(tree_digest(&Tree::Dir(vec![(b"e".to_vec(), Tree::Dir(vec![]))])), None);
    // entry order does not matter
    let swapped = Tree::Dir(vec![
        (b"sub".to_vec(), Tree::Dir(vec![(b"x".to_vec(), Tree::Link(b"../y".to_vec()))])),
        ("é".as_bytes().to_vec(), Tree::File(b"one".to_vec())),
    ]);
    assert_eq!(tree_digest(&swapped), base);
    assert_eq!(tree_digest(&Tree::File(b"one".to_vec())), Some(file_digest(b"one")));
}

#[test]
fn corpus_remembers_content_hashes() {
    let mut c = Corpus::new(2);
    assert!(c.insert_hash([5; 32]));
    assert!(c.insert_hash([1; 32]));
    assert!(c.insert_hash([9; 32]));
    assert!(!c.insert_hash([1; 32]));
    assert!(!c.insert_hash([9; 32]));
    assert!(c.insert_hash([7; 32]));
    assert!(!c.insert_hash([5; 32]));
    c.insert_seed(seed(feature(2, &[0], &[0]), 1));
    c.insert_seed(seed(feature(2, &[1], &[0]), 2));
    assert_eq!(c.incons_popularity(1), vec![2]);
}

#[test]
fn parsing_result_of_trees() {
    use_result();
}

fn use_result() {
    assert!(matches!(zip_diff::fingerprint::parsing_result(None), ParsingResult::Missing));
    let empty = zip_diff::fingerprint::parsing_result(Some(Tree::Dir(vec![])));
    assert!(matches!(empty, ParsingResult::Tree(d) if d == [0; 32]));
}

#[test]
fn data_descriptor_choices_apply() {
    use_descriptor();
}

fn use_descriptor() {
    let mut zip = ZipArchive::new();
    zip.add_simple("a", b"abc").unwrap();
    let c = zip_diff::zip_mutation::DescriptorChoices {
        signature: true,
        keep_crc: true,
        keep_compressed: false,
        keep_uncompressed: true,
        wide: true,
        zero_all: false,
        zero_crc: true,
        zero_compressed: false,
        zero_uncompressed: false,
    };
    let crc = zip.files[0].lfh.crc32;
    zip_diff::zip_mutation::set_data_descriptor(&mut zip, 0, c);
    let dd = zip.files[0].dd.unwrap();
    assert_eq!(dd.crc32, crc);
    assert_eq!(dd.compressed_size, zip_diff::dd::U32or64::U64(0));
    assert_eq!(dd.uncompressed_size, zip_diff::dd::U32or64::U64(3));
    assert_eq!(zip.files[0].lfh.crc32, 0);
    assert_eq!(zip.files[0].lfh.compressed_size, 3);
    assert_eq!(zip.files[0].lfh.general_purpose_flag.0 & 8, 8);
}
