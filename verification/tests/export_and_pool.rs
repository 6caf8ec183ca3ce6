use treeframe::export::{parse_codec, preflight, CompressionCodec, ExportError};
use treeframe::pool::{default_width, PoolAction, PoolRecord};

#[test]
fn every_codec_is_selected_by_its_name() {
    let codecs = [
        ("uncompressed", CompressionCodec::Uncompressed),
        ("snappy", CompressionCodec::Snappy),
        ("gzip", CompressionCodec::Gzip),
        ("lzo", CompressionCodec::Lzo),
        ("brotli", CompressionCodec::Brotli),
        ("lz4", CompressionCodec::Lz4),
        ("zstd", CompressionCodec::Zstd),
    ];
    for (name, codec) in codecs {
        assert_eq!(parse_codec(name), Ok(codec));
        assert_eq!(codec.as_str(), name);
    }
}

#[test]
fn unknown_codec_name_is_refused() {
    for name in ["", "Snappy", "zip", "gzip ", "none"] {
        assert_eq!(
            parse_codec(name),
            Err(ExportError::InvalidCompression { name: name.to_string() })
        );
    }
}

#[test]
fn existing_target_is_refused_without_leave_to_overwrite() {
    assert_eq!(
        preflight("out.parquet", true, false, "snappy"),
        Err(ExportError::AlreadyExists { path: "out.parquet".to_string() })
    );
}

#[test]
fn existing_target_is_refused_before_the_codec_is_looked_at() {
    assert_eq!(
        preflight("out.parquet", true, false, "no-such-codec"),
        Err(ExportError::AlreadyExists { path: "out.parquet".to_string() })
    );
}

#[test]
fn export_proceeds_with_leave_to_overwrite_or_a_free_target() {
    assert_eq!(preflight("out.parquet", true, true, "zstd"), Ok(CompressionCodec::Zstd));
    assert_eq!(preflight("out.parquet", false, false, "snappy"), Ok(CompressionCodec::Snappy));
    assert_eq!(preflight("out.parquet", false, true, "gzip"), Ok(CompressionCodec::Gzip));
    assert_eq!(
        preflight("out.parquet", false, false, "rar"),
        Err(ExportError::InvalidCompression { name: "rar".to_string() })
    );
}

#[test]
fn default_width_is_half_the_parallelism_and_at_least_one() {
    assert_eq!(default_width(0), 1);
    assert_eq!(default_width(1), 1);
    assert_eq!(default_width(2), 1);
    assert_eq!(default_width(3), 1);
    assert_eq!(default_width(4), 2);
    assert_eq!(default_width(9), 4);
    assert_eq!(default_width(64), 32);
    assert_eq!(default_width(usize::MAX), usize::MAX / 2);
}

#[test]
fn first_use_on_this_machine_asks_for_at_least_one_worker() {
    let record = PoolRecord::new();
    let width = match record.on_use() {
        PoolAction::Install { width } => width,
        PoolAction::Keep => panic!("nothing was installed before the first use"),
    };
    assert!(width >= 1);
    let record = record.on_build_result(width, true);
    assert_eq!(record.installed, Some(width));
    assert_eq!(record.on_use(), PoolAction::Keep);
}

#[test]
fn first_use_installs_the_default_pool_once() {
    let record = PoolRecord::new();
    assert_eq!(record.installed, None);
    assert_eq!(record.on_use_with(8), PoolAction::Install { width: 4 });
    let record = record.on_build_result(4, true);
    assert_eq!(record.installed, Some(4));
    assert_eq!(record.on_use_with(8), PoolAction::Keep);
    assert_eq!(record.on_use_with(64), PoolAction::Keep);
    assert_eq!(record.on_use(), PoolAction::Keep);
}

#[test]
fn requested_width_replaces_the_pool() {
    let record = PoolRecord::new();
    assert_eq!(record.on_set_width(1), PoolAction::Install { width: 1 });
    let record = record.on_build_result(1, true);
    assert_eq!(record.installed, Some(1));
    assert_eq!(record.on_use_with(16), PoolAction::Keep);
    assert_eq!(record.on_set_width(6), PoolAction::Install { width: 6 });
    let record = record.on_build_result(6, true);
    assert_eq!(record.installed, Some(6));
}

#[test]
fn failed_build_leaves_the_record_as_it_was() {
    let fresh = PoolRecord::new();
    assert_eq!(fresh.on_build_result(3, false), fresh);
    assert_eq!(fresh.on_build_result(3, false).on_use_with(8), PoolAction::Install { width: 4 });
    let installed = fresh.on_build_result(2, true);
    assert_eq!(installed.on_set_width(1_000_000), PoolAction::Install { width: 1_000_000 });
    let after = installed.on_build_result(1_000_000, false);
    assert_eq!(after, installed);
    assert_eq!(after.installed, Some(2));
    assert_eq!(after.on_use(), PoolAction::Keep);
}

#[test]
fn requested_width_is_recorded_as_requested() {
    let record = PoolRecord::new().on_build_result(0, true);
    assert_eq!(record.installed, Some(0));
    assert_eq!(record.on_use(), PoolAction::Keep);
}
