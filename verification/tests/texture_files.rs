use kl_lords::texture_files::{is_png, text_at_most, texture_asset_paths};

#[test]
fn png_extension_as_path_reads_it() {
    assert!(is_png("grass.png"));
    assert!(is_png("rock.v2.png"));
    assert!(is_png("..png"));
    assert!(!is_png(".png"));
    assert!(!is_png("grass.PNG"));
    assert!(!is_png("grass.png.bak"));
    assert!(!is_png("png"));
    assert!(!is_png(""));
    for name in ["grass.png", "rock.v2.png", "..png", ".png", "grass.PNG", "grass.png.bak", "png", "a.", ".."] {
        let expected = std::path::Path::new(name).extension().is_some_and(|ext| ext == "png");
        assert_eq!(is_png(name), expected, "{name}");
    }
}

#[test]
fn texts_order_as_strings_do() {
    let words = ["", "a", "b", "ab", "B", "é", "e", "textures/sand.png", "textures/rock.png", "z"];
    for a in words {
        for b in words {
            assert_eq!(text_at_most(a, b), a <= b, "{a} <= {b}");
        }
    }
}

#[test]
fn texture_paths_are_sorted_pngs() {
    let names: Vec<String> = ["water.png", "notes.txt", "Sand.png", "grass.png", ".png", "rock.png", "grass.png"]
        .iter()
        .map(|s| s.to_string())
        .collect();
    let paths = texture_asset_paths(&names);
    assert_eq!(
        paths,
        vec![
            "textures/Sand.png",
            "textures/grass.png",
            "textures/grass.png",
            "textures/rock.png",
            "textures/water.png",
        ]
    );
    assert!(texture_asset_paths(&vec![]).is_empty());
}
