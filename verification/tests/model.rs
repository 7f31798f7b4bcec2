use leafquery::keys::{ColKey, ColumnType, DataType, ObjKey, TableKey};
use leafquery::node::DefaultAllocator;
use leafquery::store::{
    DBDurability, DBOptions, Transaction, TransactStage, TransactionInner, VersionID, DB,
};
use leafquery::table::{Spec, TableRef};
use leafquery::value::Value;

#[test]
fn col_key_packs_and_unpacks_its_parts() {
    let k = ColKey::new(42, ColumnType::String, 16 | 32, 7);
    assert_eq!(k.get_index(), 42);
    assert!(matches!(k.get_type(), ColumnType::String));
    assert_eq!(k.get_attrs(), 16 | 32);
    assert_eq!(k.get_tag(), 7);
    assert!(k.is_nullable());
    assert!(k.is_list());
    assert!(!k.is_set());
    assert!(!k.is_dictionary());
    assert!(k.is_collection());
    assert!(k.value >= 0);

    let plain = ColKey::new(0, ColumnType::Int, 0, 0);
    assert_eq!(plain.get_index(), 0);
    assert!(matches!(plain.get_type(), ColumnType::Int));
    assert!(!plain.is_nullable());
    assert!(!plain.is_collection());
    assert_ne!(plain, ColKey::invalid());
}

#[test]
fn obj_keys_below_minus_one_are_unresolved() {
    assert!(!ObjKey { value: 0 }.is_unresolved());
    assert!(!ObjKey::invalid().is_unresolved());
    assert!(ObjKey { value: -2 }.is_unresolved());
    assert!(ObjKey { value: -100 }.is_unresolved());
    assert_eq!(TableKey::invalid().value, u32::MAX >> 1);
}

#[test]
fn transaction_lifecycle_follows_the_stages() {
    let db = DB { version: 10, top_ref: 24 };
    let txn = Transaction::new(&db).unwrap();
    assert_eq!(txn.stage(), TransactStage::transact_Reading);
    assert_eq!(txn.get_top_ref(), 24);
    assert!(!txn.is_frozen());

    // Reading -> Writing -> commit bumps the version and reads again.
    let writer = txn.promote_to_write().unwrap();
    assert_eq!(writer.txn.stage(), TransactStage::transact_Writing);
    let txn = writer.commit().unwrap();
    assert_eq!(txn.stage(), TransactStage::transact_Reading);
    assert_eq!(txn.inner.version.version, 11);

    // Rollback keeps the version.
    let writer = txn.promote_to_write().unwrap();
    let txn = writer.rollback().unwrap();
    assert_eq!(txn.inner.version.version, 11);

    // Committing while staying a writer also bumps the version.
    let mut writer = txn.promote_to_write().unwrap();
    writer.commit_and_continue().unwrap();
    assert_eq!(writer.txn.stage(), TransactStage::transact_Writing);
    assert_eq!(writer.txn.inner.version.version, 12);

    // A frozen snapshot cannot enter the writing stage.
    let txn = writer.rollback().unwrap();
    let frozen = txn.freeze().unwrap();
    assert!(frozen.txn.is_frozen());
    assert!(frozen.txn.promote_to_write().is_err());
    assert!(frozen.txn.freeze().is_err());
}

#[test]
fn advance_read_refuses_to_go_backwards() {
    let db = DB { version: 5, top_ref: 8 };
    let mut txn = db.start_read(None).unwrap();
    assert!(txn.advance_read(Some(VersionID { version: 9, index: 0 })).is_ok());
    assert_eq!(txn.inner.version.version, 9);
    assert!(txn.advance_read(Some(VersionID { version: 3, index: 0 })).is_err());
    assert_eq!(txn.inner.version.version, 9);
    assert!(txn.advance_read(None).is_ok());
}

#[test]
fn inner_round_trip_and_frozen_start() {
    let inner = TransactionInner {
        stage: TransactStage::transact_Reading,
        version: VersionID { version: 3, index: 1 },
        top_ref: 16,
    };
    let txn = Transaction::from_inner(inner);
    assert_eq!(*txn.as_inner(), inner);
    assert_eq!(txn.into_inner(), inner);

    let db = DB { version: 4, top_ref: 40 };
    let frozen = db.start_frozen(None).unwrap();
    assert!(frozen.txn.is_frozen());
    assert_eq!(frozen.top_ref(), 40);
    assert!(db.clone().delete_files().unwrap());

    let opts = DBOptions::default();
    assert_eq!(opts.durability, DBDurability::Full);
    assert!(!opts.is_immutable);
    assert_eq!(VersionID::default().version, u64::MAX);
}

#[test]
fn add_column_issues_packed_keys_in_order() {
    let db = DB { version: 0, top_ref: 8 };
    let txn = Transaction::new(&db).unwrap();
    let mut writer = txn.promote_to_write().unwrap();
    let mut table = TableRef {
        key: TableKey { value: 1 },
        name: String::from("class_Items"),
        size: 0,
        table_spec: Spec { columns: Vec::new() },
    };
    let int_col = table
        .add_column(&mut writer, DataType::Int, "int", false)
        .unwrap();
    let str_col = table
        .add_column(&mut writer, DataType::String, "string", true)
        .unwrap();
    assert_ne!(int_col, ColKey::invalid());
    assert_ne!(str_col, ColKey::invalid());
    assert_ne!(int_col, str_col);
    assert_eq!(int_col.get_index(), 0);
    assert_eq!(str_col.get_index(), 1);
    assert!(!int_col.is_nullable());
    assert!(str_col.is_nullable());
    assert!(matches!(str_col.get_type(), ColumnType::String));

    let spec = table.spec();
    assert_eq!(spec.get_column_count(), 2);
    assert_eq!(spec.get_column_name(0), "int");
    assert_eq!(spec.get_column_name(1), "string");
    assert!(matches!(spec.get_column_type(0), ColumnType::Int));
    assert!(matches!(spec.get_column_type(1), ColumnType::String));
    assert_eq!(spec.get_key(0).unwrap(), int_col);
    assert!(spec.get_key(5).is_err());
    assert_eq!(spec.get_column_index(&String::from("string")), 1);
    assert_eq!(spec.get_column_index(&String::from("missing")), 2);
    assert_eq!(table.name(), "class_Items");
    assert_eq!(table.size(), 0);
    assert_eq!(table.key(), TableKey { value: 1 });
    let txn = writer.commit().unwrap();
    assert_eq!(txn.inner.version.version, 1);
}

#[test]
fn objects_store_values_under_column_keys() {
    let int_col = ColKey::new(0, ColumnType::Int, 0, 0);
    let str_col = ColKey::new(1, ColumnType::String, 0, 0);
    let mut obj = leafquery::table::Obj { key: ObjKey { value: 7 }, fields: Vec::new() };
    assert!(obj.get_int(int_col).is_err());
    obj.set_int(int_col, 41).unwrap();
    obj.set_string(str_col, b"hello".to_vec()).unwrap();
    assert_eq!(obj.get_int(int_col).unwrap(), 41);
    obj.set_int(int_col, 42).unwrap();
    assert_eq!(obj.get_int(int_col).unwrap(), 42);
    // Reading a string cell as an integer is an error, not a reinterpretation.
    assert!(obj.get_int(str_col).is_err());
    assert!(matches!(obj.fields[1].1, Value::Str(_)));
}

#[test]
fn cluster_hands_out_its_refs() {
    let cluster = leafquery::table::Cluster { keys_ref: 64, column_refs: vec![128, 256] };
    assert_eq!(cluster.get_keys_ref(), 64);
    assert_eq!(cluster.get_column_ref(0), 128);
    assert_eq!(cluster.get_column_ref(1), 256);
}

#[test]
fn allocator_hands_out_aligned_nonzero_refs() {
    let mut alloc = DefaultAllocator::new();
    let a = alloc.allocate(1).unwrap();
    let b = alloc.allocate(9).unwrap();
    let c = alloc.allocate(0).unwrap();
    assert_eq!(a.m_ref, 8);
    assert_eq!(b.m_ref, 16);
    assert_eq!(c.m_ref, 32);
    for m in [a, b, c] {
        assert!(m.m_ref != 0 && m.m_ref % 2 == 0);
        assert!(leafquery::is_ref(m.m_ref as i64));
    }
    assert!(alloc.allocate(usize::MAX).is_err());
}

#[test]
fn alloc_sanity() {
    let mut alloc = DefaultAllocator::new();
    let m = alloc.allocate(1024).unwrap();
    println!("Hello, World! {:x}", m.m_ref);
}
