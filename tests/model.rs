use cursetool::model::{
    generate_yaml_manifest, generate_yaml_mod_entry, newest_file, nix_mod_entry, render_nix_manifest, AddonInfo,
    AddonLinks, CurseManifest, CurseModFile, CurseModFileInfo, MinecraftVersion, ModFile, NixMod, Side, YamlManifest,
    YamlMod, YamlModFile,
};

fn manifest(imports: Vec<String>, mods: Vec<YamlMod>) -> YamlManifest {
    YamlManifest { version: "1.12.2".to_string(), imports, mods }
}

#[test]
fn can_merge_manifests() {
    let a = manifest(
        vec!["b.yaml".to_string(), "c.yaml".to_string()],
        vec![YamlMod::with_id("jei", 238222), YamlMod::with_name("iron-chests")],
    );
    let b = manifest(vec!["c.yaml".to_string()], vec![YamlMod::with_id("iron-chests", 123456)]);
    let c = manifest(vec![], vec![YamlMod::with_files("waystones", 245755, YamlModFile::with_id(2859589))]);
    // Each manifest is merged with the already merged manifests it imports.
    let c_loaded = c.merge(vec![]);
    let b_loaded = b.merge(vec![c_loaded.merge(vec![])]);
    let merged_manifest = a.merge(vec![b_loaded, c_loaded]);

    assert_eq!(merged_manifest.version, "1.12.2", "Should have correct version");
    assert_eq!(merged_manifest.imports.len(), 0, "Should have no remaining imports");
    assert_eq!(merged_manifest.mods.len(), 3, "Should exclude duplicates");
    assert!(
        merged_manifest.mods.iter().find(|x| x.name == "iron-chests").unwrap().id.is_none(),
        "Higher level manifests should take priority"
    );
}

#[test]
fn merge_keeps_first_occurrence_order_and_distinct_imports() {
    let base = manifest(vec!["x.yaml".to_string()], vec![YamlMod::with_name("b")]);
    let one = manifest(vec!["p.yaml".to_string(), "q.yaml".to_string()], vec![YamlMod::with_id("a", 1)]);
    let two = manifest(vec!["q.yaml".to_string()], vec![YamlMod::with_id("b", 2), YamlMod::with_id("c", 3)]);
    let merged = base.merge(vec![one, two]);
    let names: Vec<&str> = merged.mods.iter().map(|m| m.name.as_str()).collect();
    assert_eq!(names, vec!["b", "a", "c"]);
    assert_eq!(merged.mods[0].id, None);
    assert_eq!(merged.imports, vec!["p.yaml".to_string(), "q.yaml".to_string()]);
}

fn addon(slug: &str, id: u32) -> AddonInfo {
    AddonInfo {
        name: slug.to_uppercase(),
        slug: slug.to_string(),
        links: AddonLinks { website_url: format!("https://www.curseforge.com/minecraft/mc-mods/{}", slug) },
        id,
    }
}

#[test]
fn can_generate_yaml() {
    let curse = CurseManifest {
        minecraft: MinecraftVersion { version: "1.12.2".to_string() },
        files: vec![
            ModFile { project_id: 238222, file_id: 3043174, required: true },
            ModFile { project_id: 228756, file_id: 2747935, required: true },
        ],
    };
    let addons = vec![addon("jei", 238222), addon("iron-chests", 228756)];
    let entries: Vec<YamlMod> =
        curse.files.iter().zip(addons.iter()).map(|(m, a)| generate_yaml_mod_entry(m, a)).collect();
    let generated_manifest = generate_yaml_manifest(curse.minecraft.version.clone(), entries);

    assert_eq!(generated_manifest.version, "1.12.2".to_string(), "Version is incorrect");
    assert_eq!(generated_manifest.mods.len(), 2, "Mod count is incorrect");
    assert_eq!(generated_manifest.imports.len(), 0, "There should be no imports");
    assert_eq!(generated_manifest.mods.get(0).unwrap().name, "iron-chests", "Iron Chests should be present");
    assert_eq!(generated_manifest.mods.get(1).unwrap().name, "jei", "JEI should be present");
    assert_eq!(
        generated_manifest.mods.get(0).unwrap().files.as_ref().unwrap()[0].id.unwrap(),
        2747935,
        "File ID should be set"
    );
    assert_eq!(generated_manifest.mods[1].files.as_ref().unwrap()[0].id, Some(3043174));
    assert_eq!(generated_manifest.mods[0].id, Some(228756));
}

#[test]
fn yaml_constructors() {
    let f = YamlModFile::with_id(7);
    assert_eq!(f.id, Some(7));
    assert!(f.name.is_none() && f.md5.is_none() && f.src.is_none());
    let m = YamlMod::with_files("jei", 238222, f);
    assert_eq!(m.name, "jei");
    assert_eq!(m.id, Some(238222));
    assert_eq!(m.requested_file_id(), Some(7));
    assert_eq!(YamlMod::with_id("jei", 1).requested_file_id(), None);
}

fn curse_file(id: u32, date: &str, name: &str) -> CurseModFile {
    CurseModFile {
        id,
        file_name: name.to_string(),
        file_date: date.to_string(),
        download_url: format!("https://media.forgecdn.net/files/{}/{}", id, name),
        game_version: vec!["1.12.2".to_string()],
    }
}

#[test]
fn newest_file_picks_latest_date() {
    let files = vec![
        curse_file(1, "2020-01-01T00:00:00Z", "a.jar"),
        curse_file(2, "2021-06-01T00:00:00Z", "b.jar"),
        curse_file(3, "2019-12-31T00:00:00Z", "c.jar"),
    ];
    assert_eq!(newest_file(&files), Some(1));
    assert_eq!(newest_file(&vec![]), None);
}

fn sample_entry() -> NixMod {
    let yaml_mod = YamlMod::with_id("jei", 238222);
    let file = curse_file(3043174, "2020-01-01", "jei (1.12.2).jar");
    let info = CurseModFileInfo {
        md5: "m".to_string(),
        sha256: "s".to_string(),
        size: 12345,
        download_url: "https://media.forgecdn.net/files/3043/174/jei+x y.jar".to_string(),
    };
    nix_mod_entry(&yaml_mod, 238222, &addon("jei", 238222), &file, &info)
}

#[test]
fn nix_entry_applies_defaults_and_fixups() {
    let e = sample_entry();
    assert_eq!(e.slug, "jei");
    assert_eq!(e.title, "JEI");
    assert_eq!(e.side, Side::Both);
    assert!(e.required && e.default);
    assert_eq!(e.filename, "jei 1.12.2.jar");
    assert_eq!(e.encoded, "jei 1.12.2.jar");
    assert_eq!(e.src, "https://media.forgecdn.net/files/3043/174/jei%2Bx+y.jar");
    assert_eq!(e.size, 12345);
    assert!(e.deps.is_empty());
}

#[test]
fn nix_entry_respects_explicit_flags() {
    let mut yaml_mod = YamlMod::with_id("x", 1);
    yaml_mod.side = Some(Side::Client);
    yaml_mod.required = Some(false);
    yaml_mod.default = Some(false);
    let info = CurseModFileInfo { md5: String::new(), sha256: String::new(), size: 0, download_url: String::new() };
    let e = nix_mod_entry(&yaml_mod, 1, &addon("x", 1), &curse_file(1, "d", "x.jar"), &info);
    assert_eq!(e.side, Side::Client);
    assert!(!e.required && !e.default);
}

#[test]
fn nix_entry_text() {
    let expected = r#"    "jei" = {
        "title" = "JEI";
        "name" = "jei";
        "id" = 238222;
        "side" = "both";
        "required" = true;
        "default" = true;
        "deps" = [];
        "filename" = "jei 1.12.2.jar";
        "encoded" = "jei 1.12.2.jar";
        "page" = "https://www.curseforge.com/minecraft/mc-mods/jei";
        "src" = "https://media.forgecdn.net/files/3043/174/jei%2Bx+y.jar";
        "type" = "remote";
        "md5" = "m";
        "sha256" = "s";
        "size" = 12345;
    };"#;
    assert_eq!(sample_entry().to_nix_entry(), expected);
}

#[test]
fn nix_manifest_text() {
    let entry = sample_entry().to_nix_entry();
    let text = render_nix_manifest("1.12.2", &vec![sample_entry(), sample_entry()]);
    let expected = format!(
        "{{\n    \"version\" = \"1.12.2\";\n    \"imports\" = [];\n    \"mods\" = {{\n    {}\n{}\n    }};\n}}",
        entry, entry
    );
    assert_eq!(text, expected);
    let empty = render_nix_manifest("1.7.10", &vec![]);
    assert_eq!(empty, "{\n    \"version\" = \"1.7.10\";\n    \"imports\" = [];\n    \"mods\" = {\n    \n    };\n}");
}

#[test]
fn side_names() {
    assert_eq!(Side::Client.name(), "client");
    assert_eq!(Side::Server.name(), "server");
    assert_eq!(Side::Both.name(), "both");
}
