//! Model configuration, name parsing and the append-only cache.

use recon::model::{
    h_csv_filename, infer_model_id, load_matrix, parse_model_id, ModelId, ModelStore,
};
use recon::sched::{capacity_units, units_for};

#[test]
fn model_names_parse_exactly() {
    assert_eq!(parse_model_id(&"30x30".to_string()), Some(ModelId::M30));
    assert_eq!(parse_model_id(&"60x60".to_string()), Some(ModelId::M60));
    assert_eq!(parse_model_id(&"99x99".to_string()), None);
    assert_eq!(parse_model_id(&"".to_string()), None);
    assert_eq!(parse_model_id(&"30X30".to_string()), None);
}

#[test]
fn model_geometry_and_cost() {
    assert_eq!(ModelId::M30.side(), 30);
    assert_eq!(ModelId::M30.pixels(), 900);
    assert_eq!(ModelId::M30.cost_mb(), 512);
    assert_eq!(ModelId::M60.side(), 60);
    assert_eq!(ModelId::M60.pixels(), 3600);
    assert_eq!(ModelId::M60.cost_mb(), 1536);
    assert_eq!(ModelId::M30.name(), "30x30");
    assert_eq!(ModelId::M60.name(), "60x60");
}

#[test]
fn memory_weights_match_the_table() {
    assert_eq!(units_for(ModelId::M30), 1);
    assert_eq!(units_for(ModelId::M60), 3);
    assert_eq!(capacity_units(100), 1);
    assert_eq!(capacity_units(512), 1);
    assert_eq!(capacity_units(2048), 4);
    assert_eq!(capacity_units(0), 1);
}

#[test]
fn signal_file_names_infer_their_model() {
    assert_eq!(infer_model_id(b"g-30x30-1.csv"), ModelId::M30);
    assert_eq!(infer_model_id(b"g-30x30-2.csv"), ModelId::M30);
    assert_eq!(infer_model_id(b"G-60x60-1.csv"), ModelId::M60);
    assert_eq!(infer_model_id(b"G-60x60-2.csv"), ModelId::M60);
    assert_eq!(infer_model_id(b""), ModelId::M30);
    assert_eq!(infer_model_id(b"60x6"), ModelId::M30);
    assert_eq!(infer_model_id(b"60x60"), ModelId::M60);
}

#[test]
fn h_file_names() {
    assert_eq!(h_csv_filename(ModelId::M30), "H-30x30.csv");
    assert_eq!(h_csv_filename(ModelId::M60), "H-60x60.csv");
}

#[test]
fn store_caches_first_load() {
    // A tiny stand-in geometry is enough for the cache semantics: the
    // store itself only checks the pixel count.
    let text30: Vec<u8> = {
        let mut t = Vec::new();
        for _ in 0..2 {
            let row = vec!["1.0"; 900].join(",");
            t.extend_from_slice(row.as_bytes());
            t.push(b'\n');
        }
        t
    };
    let m_first = load_matrix(2, 900, &text30).unwrap();
    let mut store = ModelStore::new();
    assert!(store.lookup(ModelId::M30).is_none());
    assert!(store.lookup(ModelId::M60).is_none());
    store.install(ModelId::M30, m_first);
    {
        let got = store.lookup(ModelId::M30).unwrap();
        assert_eq!(got.s, 2);
        assert_eq!(got.n, 900);
    }

    // A second load of the same model must not replace the first.
    let text_other: Vec<u8> = {
        let mut t = Vec::new();
        for _ in 0..3 {
            let row = vec!["2.0"; 900].join(",");
            t.extend_from_slice(row.as_bytes());
            t.push(b'\n');
        }
        t
    };
    let m_second = load_matrix(3, 900, &text_other).unwrap();
    store.install(ModelId::M30, m_second);
    let again = store.lookup(ModelId::M30).unwrap();
    assert_eq!(again.s, 2);
    assert_eq!(again.n, 900);
    assert_eq!(again.data[0], 1.0f64.to_bits());
    assert!(store.lookup(ModelId::M60).is_none());
}
