use std::path::Path;

use media_subtitle_worker::file_id::FileId;
use media_subtitle_worker::object_path::{directory_of, extension_of, join};
use media_subtitle_worker::ordering::sort_texts;
use media_subtitle_worker::pipeline::{
    infer_init_object_key, infer_variant_prefix, merge_fragments, segment_keys,
    subtitle_object_key, temp_audio_name, temp_fragmented_audio_name,
};

fn texts(items: &[&str]) -> Vec<String> {
    items.iter().map(|s| s.to_string()).collect()
}

fn id(text: &str) -> FileId {
    FileId::parse(text).unwrap()
}

#[test]
fn infers_init_object_key_from_segment_key() {
    let key = "media/abc/64k/seg_00000.m4s";
    let init = infer_init_object_key(key);
    assert_eq!(init.as_deref(), Some("media/abc/64k/init.mp4"));
}

#[test]
fn infers_variant_prefix_from_segment_key() {
    let key = "media/abc/64k/seg_00000.m4s";
    let prefix = infer_variant_prefix(key);
    assert_eq!(prefix.as_deref(), Some("media/abc/64k/"));
}

#[test]
fn keys_without_a_directory_or_a_name() {
    assert_eq!(infer_init_object_key("seg.m4s").as_deref(), Some("init.mp4"));
    assert_eq!(infer_variant_prefix("seg.m4s").as_deref(), Some("/"));
    assert_eq!(infer_init_object_key("/seg.m4s").as_deref(), Some("/init.mp4"));
    assert_eq!(infer_variant_prefix("/seg.m4s").as_deref(), Some("//"));
    assert_eq!(infer_init_object_key(""), None);
    assert_eq!(infer_variant_prefix(""), None);
    assert_eq!(infer_init_object_key("/"), None);
    assert_eq!(infer_variant_prefix("/"), None);
}

#[test]
fn paths_agree_with_the_standard_library() {
    let parts = ["", "/", "//", ".", "..", "a", "b.c", ".d", "e.", "f.g.h", "ы.ф"];
    for a in parts {
        for b in parts {
            for c in parts {
                for d in parts {
                    let key = format!("{a}{b}{c}{d}");
                    let path = Path::new(&key);
                    assert_eq!(
                        directory_of(&key),
                        path.parent().map(|p| p.to_str().unwrap().to_string()),
                        "directory of {key:?}"
                    );
                    assert_eq!(
                        extension_of(&key),
                        path.extension().map(|e| e.to_str().unwrap().to_string()),
                        "extension of {key:?}"
                    );
                    assert_eq!(
                        join(&key, "init.mp4"),
                        path.join("init.mp4").to_str().unwrap(),
                        "{key:?} joined"
                    );
                }
            }
        }
    }
}

#[test]
fn segments_come_in_the_order_of_their_keys() {
    let listed = texts(&[
        "media/1/seg_10.m4s",
        "media/1/init.mp4",
        "media/1/seg_02.m4s",
        "media/1/playlist.m3u8",
        "media/1/seg_01.m4s",
        "media/1/seg_02.m4s",
    ]);
    assert_eq!(
        segment_keys(&listed, "media/1/seg_01.m4s"),
        texts(&[
            "media/1/seg_01.m4s",
            "media/1/seg_02.m4s",
            "media/1/seg_02.m4s",
            "media/1/seg_10.m4s",
        ])
    );
}

#[test]
fn the_source_stands_in_for_an_empty_listing() {
    assert_eq!(segment_keys(&Vec::new(), "a/s.m4s"), texts(&["a/s.m4s"]));
    assert_eq!(
        segment_keys(&texts(&["a/init.mp4", "a/x.ts"]), "a/s.m4s"),
        texts(&["a/s.m4s"])
    );
}

#[test]
fn texts_sort_as_the_standard_library_sorts_them() {
    let unsorted = texts(&["b", "", "aa", "a", "Z", "ы", "a\u{10FFFF}", "a\u{E000}", "aa", "é"]);
    let mut expected = unsorted.clone();
    expected.sort();
    assert_eq!(sort_texts(&unsorted), expected);
}

#[test]
fn fragments_are_put_one_behind_the_other() {
    assert_eq!(
        merge_fragments(vec![1, 2], &vec![vec![3], Vec::new(), vec![4, 5]]),
        vec![1, 2, 3, 4, 5]
    );
    assert_eq!(merge_fragments(Vec::new(), &Vec::new()), Vec::<u8>::new());
}

#[test]
fn temporary_files_keep_the_extension() {
    let id = id("11111111-1111-4111-8111-111111111111");
    assert_eq!(
        temp_audio_name(id, "media/x/source.wav"),
        "subtitle_input_11111111-1111-4111-8111-111111111111.wav"
    );
    assert_eq!(
        temp_audio_name(id, "media/x/source"),
        "subtitle_input_11111111-1111-4111-8111-111111111111.bin"
    );
    assert_eq!(
        temp_audio_name(id, "media/x/.hidden"),
        "subtitle_input_11111111-1111-4111-8111-111111111111.bin"
    );
    assert_eq!(
        temp_fragmented_audio_name(id),
        "subtitle_input_11111111-1111-4111-8111-111111111111.mp4"
    );
}

#[test]
fn subtitles_are_stored_under_the_file() {
    let a = id("11111111-1111-1111-1111-111111111111");
    let b = id("11111111-1111-1111-1111-111111111112");
    assert_eq!(
        subtitle_object_key(a, "subtitles.vtt"),
        "media/11111111-1111-1111-1111-111111111111/subtitles.vtt"
    );
    assert_ne!(subtitle_object_key(a, "subtitles.vtt"), subtitle_object_key(b, "subtitles.vtt"));
    assert_ne!(subtitle_object_key(a, "subtitles.vtt"), subtitle_object_key(a, "subtitles.srt"));
}

#[test]
fn identifiers_are_read_in_four_forms() {
    let number = 0x67e5504410b1426f9247bb680e5fe0c8u128;
    for text in [
        "67e55044-10b1-426f-9247-bb680e5fe0c8",
        "67E5504410B1426F9247BB680E5FE0C8",
        "{67e55044-10b1-426f-9247-bb680e5fe0c8}",
        "urn:uuid:67e55044-10b1-426f-9247-bb680e5fe0c8",
        "URN:UUID:67e55044-10b1-426f-9247-bb680e5fe0c8",
    ] {
        assert_eq!(FileId::parse(text).unwrap().value, number);
    }
    for text in [
        "",
        "67e55044-10b1-426f-9247-bb680e5fe0c",
        "67e5504410b1-426f-9247-bb680e5fe0c8-",
        "67e55044-10b1-426f-9247-bb680e5fe0cg",
        "{67e5504410b1426f9247bb680e5fe0c8}",
        "(67e55044-10b1-426f-9247-bb680e5fe0c8)",
        "urn-uuid:67e55044-10b1-426f-9247-bb680e5fe0c8",
        "67e55044-10b1-426f-9247-bb680e5fe0c8 ",
        "ы7e55044-10b1-426f-9247-bb680e5fe0c",
    ] {
        assert!(FileId::parse(text).is_err(), "{text:?}");
    }
}

#[test]
fn identifiers_read_back_their_text() {
    for value in [0u128, 1, 0xdead_beef, u128::MAX, 0x67e5504410b1426f9247bb680e5fe0c8] {
        let id = FileId { value };
        assert_eq!(FileId::parse(&id.text()).unwrap().value, value);
    }
    assert_eq!(FileId { value: 0xabc }.text(), "00000000-0000-0000-0000-000000000abc");
}

#[test]
fn random_identifiers_are_of_version_four() {
    let text = FileId::random().text();
    assert_eq!(text.len(), 36);
    assert_eq!(&text[14..15], "4");
    assert!(matches!(&text[19..20], "8" | "9" | "a" | "b"));
    assert_ne!(text, FileId::random().text());
}

#[test]
fn segments_always_have_neighbours() {
    for key in [".m4s", "/.m4s", "a//b.m4s", "./a.m4s", "a/../b.m4s", "ы/ф.m4s"] {
        assert!(infer_init_object_key(key).is_some());
        assert!(infer_variant_prefix(key).is_some());
    }
    assert_eq!(infer_init_object_key("./a.m4s").as_deref(), Some("./init.mp4"));
    assert_eq!(infer_variant_prefix("a//b.m4s").as_deref(), Some("a/"));
}
