use server_fns::embed_asset::{
    embed_env_vars, find_asset, recurse_all_files, resolve_embed_base, dev_asset_path, static_ident, AssetError,
    AssetStructSource, AssetType, DirEntry, DirNode, EmbedBaseError, EmbeddedAsset, FieldSource, FieldValue,
    LoadAssetError, LoadAssetImpl, ReadOutcome,
};

fn entry(name: &str, node: DirNode) -> DirEntry {
    DirEntry { name: name.to_string(), node }
}

fn site() -> DirNode {
    DirNode::Dir(vec![
        entry("img", DirNode::Dir(vec![entry("logo.png", DirNode::File), entry("empty", DirNode::Dir(vec![]))])),
        entry("a-b.txt", DirNode::File),
    ])
}

fn table(base: &str, node: &DirNode) -> Vec<server_fns::embed_asset::StaticAsset> {
    match AssetType::static_(base, node) {
        AssetType::StaticAsset(t) => t,
        AssetType::FileAsset => panic!("expected an embedded table"),
    }
}

#[test]
fn walk_lists_every_file() {
    let files = recurse_all_files("/assets", &site());
    assert_eq!(files, vec!["/assets/img/logo.png".to_string(), "/assets/a-b.txt".to_string()]);
    assert_eq!(recurse_all_files("/assets/x.css", &DirNode::File), vec!["/assets/x.css".to_string()]);
    assert!(recurse_all_files("/empty", &DirNode::Dir(vec![])).is_empty());
}

#[test]
fn embedded_table_has_one_entry_per_file() {
    let t = table("/assets", &site());
    assert_eq!(t.len(), 2);
    assert_eq!(t[0].path, "img/logo.png");
    assert_eq!(t[0].full, "/assets/img/logo.png");
    assert_eq!(t[0].ident, "__IMG_LOGO_PNG");
    assert_eq!(t[0].mime, Some("image/png".to_string()));
    assert_eq!(t[1].path, "a-b.txt");
    assert_eq!(t[1].ident, "__A_B_TXT");
    assert_eq!(t[1].mime, Some("text/plain".to_string()));
}

#[test]
fn lookup_outside_the_table_is_not_found() {
    let t = table("/assets", &site());
    assert_eq!(find_asset(&t, "img/logo.png"), Ok(0));
    assert_eq!(find_asset(&t, "a-b.txt"), Ok(1));
    assert_eq!(find_asset(&t, "missing.png"), Err(AssetError::NotFound("missing.png".to_string())));
    assert_eq!(find_asset(&t, "/assets/img/logo.png"), Err(AssetError::NotFound("/assets/img/logo.png".to_string())));
    assert_eq!(AssetError::NotFound("x".to_string()).message(), "Asset Not Found (x)");
}

#[test]
fn single_file_base_embeds_one_entry() {
    let t = table("/srv/logo-dark.svg", &DirNode::File);
    assert_eq!(t.len(), 1);
    assert_eq!(t[0].path, "logo-dark.svg");
    assert_eq!(t[0].ident, "logo_dark_svg");
    assert_eq!(t[0].full, "/srv/logo-dark.svg");
    assert_eq!(t[0].mime, Some("image/svg+xml".to_string()));
}

#[test]
fn static_ident_skips_empty_components() {
    assert_eq!(static_ident("css//site.min.css"), "__CSS_SITE_MIN_CSS");
}

#[test]
fn dev_mode_reads_live() {
    let path = dev_asset_path("/assets", "img/logo.png");
    assert_eq!(path, "/assets/img/logo.png");
    let a = EmbeddedAsset::from_read(&path, ReadOutcome::Bytes(vec![1, 2, 3])).unwrap();
    assert_eq!(a.data, vec![1, 2, 3]);
    assert_eq!(a.content_type, Some("image/png".to_string()));
    let missing = dev_asset_path("/assets", "missing.png");
    assert_eq!(
        EmbeddedAsset::from_read(&missing, ReadOutcome::Missing),
        Err(AssetError::NotFound("/assets/missing.png".to_string()))
    );
    let r = EmbeddedAsset::from_read("/assets/x", ReadOutcome::Failed("denied".to_string()));
    assert_eq!(r, Err(AssetError::FileIO("/assets/x".to_string(), "denied".to_string())));
    assert_eq!(dev_asset_path("/assets/", "a"), "/assets/a");
    assert_eq!(dev_asset_path("/assets", "/etc/a"), "/etc/a");
}

#[test]
fn embed_base_variables() {
    assert_eq!(embed_env_vars("$CARGO_MANIFEST_DIR/../$SUB"), vec!["CARGO_MANIFEST_DIR".to_string(), "SUB".to_string()]);
    let r = resolve_embed_base("$ROOT/assets", &vec![Some("/home/u".to_string())]);
    assert_eq!(r, Ok("/home/u/assets".to_string()));
    let r = resolve_embed_base("/x/$A/$B", &vec![Some("a".to_string()), None]);
    assert_eq!(r, Err(EmbedBaseError::UnresolvedEnvVar("B".to_string())));
    assert_eq!(resolve_embed_base("/plain/dir", &vec![]), Ok("/plain/dir".to_string()));
}

fn field(name: &str, value: FieldValue) -> FieldSource {
    FieldSource { name: Some(name.to_string()), value }
}

#[test]
fn load_asset_form() {
    let item = AssetStructSource {
        type_ident: Some("FileAsset".to_string()),
        fields: vec![field("base", FieldValue::Str("/assets".to_string())), field("path", FieldValue::Expr("p".to_string()))],
    };
    let l = LoadAssetImpl::try_new(&item, &None).unwrap();
    assert_eq!(l.asset_type, AssetType::FileAsset);
    assert_eq!(l.base, "/assets");
    assert_eq!(LoadAssetImpl::base_literal(&item), Some("/assets".to_string()));

    let st = AssetStructSource { type_ident: Some("StaticAsset".to_string()), ..item.clone() };
    assert_eq!(LoadAssetImpl::try_new(&st, &None), Err(LoadAssetError::Unreadable("/assets".to_string())));
    let l = LoadAssetImpl::try_new(&st, &Some(site())).unwrap();
    match l.asset_type {
        AssetType::StaticAsset(t) => assert_eq!(t.len(), 2),
        AssetType::FileAsset => panic!("expected an embedded table"),
    }

    let other = AssetStructSource { type_ident: Some("Other".to_string()), ..item.clone() };
    assert_eq!(LoadAssetImpl::try_new(&other, &None), Err(LoadAssetError::UnknownAssetType));
    let no_base = AssetStructSource { type_ident: item.type_ident.clone(), fields: vec![item.fields[1].clone()] };
    assert_eq!(LoadAssetImpl::try_new(&no_base, &None), Err(LoadAssetError::MissingBase));
    let no_path = AssetStructSource { type_ident: item.type_ident.clone(), fields: vec![item.fields[0].clone()] };
    assert_eq!(LoadAssetImpl::try_new(&no_path, &None), Err(LoadAssetError::MissingPath));
    let expr_base = AssetStructSource {
        type_ident: item.type_ident.clone(),
        fields: vec![field("base", FieldValue::Expr("b".to_string())), item.fields[1].clone()],
    };
    assert_eq!(LoadAssetImpl::try_new(&expr_base, &None), Err(LoadAssetError::BaseNotLiteral));
}
