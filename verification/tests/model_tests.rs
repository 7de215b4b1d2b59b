use crfsuite::dataset::{Attr, Sequence};
use crfsuite::features::FeatType;
use crfsuite::model::{Crf1dModel, Feature};
use crfsuite::quark::Quark;
use crfsuite::tagger::Crf1dTagger;
use crfsuite::CrfError;

#[test]
fn test_create_model_from_memory_invalid_model() {
    let ret = Crf1dModel::from_memory(b"".to_vec());
    match ret {
        Err(CrfError::InvalidModel) => {}
        _ => panic!("test fail"),
    }

    let ret = Crf1dModel::from_memory(b"abcdefg".to_vec());
    match ret {
        Err(CrfError::InvalidModel) => {}
        _ => panic!("test fail"),
    }

    let ret = Crf1dModel::from_memory(b"lCRF".to_vec());
    match ret {
        Err(CrfError::InvalidModel) => {}
        _ => panic!("test fail"),
    }

    let ret = Crf1dModel::from_memory(b"lCRFabcdefg".to_vec());
    match ret {
        Err(CrfError::InvalidModel) => {}
        _ => panic!("test fail"),
    }
}

/// A wrong magic number is refused without a panic.
#[test]
fn bad_magic_is_invalid() {
    let mut buf = vec![0u8; 64];
    buf[0] = b'x';
    match Crf1dModel::from_memory(buf) {
        Err(CrfError::InvalidModel) => {}
        _ => panic!("test fail"),
    }
}

/// A small model built by hand: two labels, two attributes, four
/// features.
fn toy_model() -> Crf1dModel {
    let features = vec![
        Feature { cat: FeatType::FT_STATE, src: 0, dst: 0, weight: (1.5f64).to_bits() },
        Feature { cat: FeatType::FT_STATE, src: 1, dst: 1, weight: (2.0f64).to_bits() },
        Feature { cat: FeatType::FT_TRANS, src: 0, dst: 1, weight: (-0.5f64).to_bits() },
        Feature { cat: FeatType::FT_TRANS, src: 1, dst: 0, weight: (0.25f64).to_bits() },
    ];
    let labels = Quark::new(&vec!["sunny".to_string(), "rainy".to_string()]);
    let attrs = Quark::new(&vec!["walk".to_string(), "shop".to_string()]);
    Crf1dModel {
        attr_refs: vec![vec![0], vec![1]],
        label_refs: vec![vec![2], vec![3]],
        features,
        labels,
        attrs,
    }
}

/// Save, load and compare every field; then save again and compare the
/// bytes.
#[test]
fn save_load_round_trip() {
    let m = toy_model();
    let x = m.to_bytes().expect("encode failed");
    assert_eq!(u32::from_le_bytes([x[4], x[5], x[6], x[7]]) as usize, x.len());
    let m2 = Crf1dModel::from_memory(x.clone()).expect("decode failed");
    assert_eq!(m2.num_labels(), m.num_labels());
    assert_eq!(m2.num_attrs(), m.num_attrs());
    assert_eq!(m2.features.len(), m.features.len());
    for k in 0..m.features.len() {
        assert_eq!(m2.features[k].cat, m.features[k].cat);
        assert_eq!(m2.features[k].src, m.features[k].src);
        assert_eq!(m2.features[k].dst, m.features[k].dst);
        assert_eq!(m2.features[k].weight, m.features[k].weight);
    }
    assert_eq!(m2.attr_refs, m.attr_refs);
    assert_eq!(m2.label_refs, m.label_refs);
    assert_eq!(m2.labels.v, m.labels.v);
    assert_eq!(m2.attrs.v, m.attrs.v);
    let y = m2.to_bytes().expect("re-encode failed");
    assert_eq!(x, y);
}

fn item(ids: &[(u32, f64)]) -> Vec<Attr> {
    ids.iter().map(|&(id, v)| Attr { id, value: v.to_bits() }).collect()
}

fn seq_of(items: Vec<Vec<Attr>>) -> Sequence {
    let n = items.len();
    Sequence { items, labels: vec![0; n], weight: (1.0f64).to_bits(), group: 0 }
}

/// Tagging twice with the same tagger and input yields identical labels.
#[test]
fn tag_twice_idempotent() {
    let m = toy_model();
    let mut tagger = Crf1dTagger::new(&m);
    let s = seq_of(vec![item(&[(0, 1.0)]), item(&[(1, 0.5)]), item(&[(0, 1.0), (1, 1.0)])]);
    let first = tagger.tag(&s);
    let second = tagger.tag(&s);
    assert_eq!(first, second);
}

/// An attribute id absent from the model's table contributes nothing.
#[test]
fn unknown_attribute_is_ignored() {
    let m = toy_model();
    let mut tagger = Crf1dTagger::new(&m);
    let with_unknown = seq_of(vec![item(&[(0, 1.0), (77, 3.0)]), item(&[(1, 0.5)])]);
    let without = seq_of(vec![item(&[(0, 1.0)]), item(&[(1, 0.5)])]);
    let a = tagger.tag(&with_unknown);
    let b = tagger.tag(&without);
    assert_eq!(a, b);
    tagger.set_seq(&with_unknown);
    let mut tagger2 = Crf1dTagger::new(&m);
    tagger2.set_seq(&without);
    assert_eq!(tagger.ctx.state[..4], tagger2.ctx.state[..4]);
}
