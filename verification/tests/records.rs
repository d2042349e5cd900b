use group_order::bean::custom_error::{
    CustomError, BAD_REQUEST, CONFLICT, INSUFFICIENT_STORAGE, INTERNAL_SERVER_ERROR, NOT_FOUND,
    UNPROCESSABLE_ENTITY,
};
use group_order::bean::db::{Article, PostArticle};
use group_order::database::diff_group::{DiffGroup, NewDiffGroup};
use group_order::database::diff_group_image::NewDiffGroupImage;
use group_order::database::image::{Image, NewImage};
use group_order::database::image_tag::{ImageTag, NewImageTag};
use group_order::database::page_offset;
use group_order::database::tag::{NewTag, Tag};
use group_order::database::tag_type::TagType;
use group_order::error::{EngineError, StoreFailure};
use group_order::rank::{Rank, MAX_UNITS};
use group_order::validation::{unix_path, Violation};

fn image(collection_path: &str) -> NewImage {
    NewImage {
        file_path: "/photos/2024/cat.png".to_string(),
        collection_path: collection_path.to_string(),
        filesize: 2048,
        checksum: Some("a".repeat(64)),
        exif_json: None,
    }
}

#[test]
fn unix_path_accepts_absolute_paths() {
    for path in ["/a", "/a/b", "/photos/2024/summer", "/a b/c", "/合集/猫", "/a\n", "/.", "/a/../b"] {
        assert!(unix_path(path), "{:?}", path);
    }
}

#[test]
fn unix_path_refuses_everything_else() {
    for path in ["", "/", "a", "a/b", "/a/", "//", "//a", "/a//b", "/a/b/", "a/", " /a", "\\a"] {
        assert!(!unix_path(path), "{:?}", path);
    }
}

#[test]
fn unix_path_agrees_with_the_pattern() {
    let pattern = regex::Regex::new(r"^/(?:[^/]+/)*[^/]+$").unwrap();
    let pieces = ["", "/", "a", "//", "b/", "/c", "\n", "猫", " ", "/d/e"];
    for first in pieces {
        for second in pieces {
            for third in pieces {
                let path = format!("{}{}{}", first, second, third);
                assert_eq!(unix_path(&path), pattern.is_match(&path), "{:?}", path);
            }
        }
    }
}

#[test]
fn new_group_with_id_keeps_its_fields() {
    let group = NewDiffGroup::new_with_id("id".to_string(), "covers".to_string(), Some(3));
    assert_eq!(group.group_id, "id");
    assert_eq!(group.group_name, "covers");
    assert_eq!(group.cover_image_id, Some(3));
}

#[test]
fn new_group_gets_a_hyphenated_identifier() {
    let group = NewDiffGroup::new("covers".to_string(), None);
    assert_eq!(group.group_name, "covers");
    assert_eq!(group.cover_image_id, None);
    let id: Vec<char> = group.group_id.chars().collect();
    assert_eq!(id.len(), 36);
    for (at, c) in id.iter().enumerate() {
        if at == 8 || at == 13 || at == 18 || at == 23 {
            assert_eq!(*c, '-');
        } else {
            assert!(matches!(*c, '0'..='9' | 'a'..='f'));
        }
    }
    assert_eq!(group.validate(), Ok(()));
    let other = NewDiffGroup::new("covers".to_string(), None);
    assert_ne!(group.group_id, other.group_id);
}

#[test]
fn group_rules_count_characters() {
    let id = "3f2b8c1e-5d4a-4f6b-9c7d-0a1b2c3d4e5f".to_string();
    let valid = NewDiffGroup::new_with_id(id.clone(), "ab".to_string(), None);
    assert_eq!(valid.validate(), Ok(()));
    let two_wide = NewDiffGroup::new_with_id(id.clone(), "差分".to_string(), None);
    assert_eq!(two_wide.validate(), Ok(()));
    let one_wide = NewDiffGroup::new_with_id(id.clone(), "差".to_string(), None);
    assert_eq!(one_wide.validate(), Err(vec![Violation::GroupNameTooShort]));
    let short_id = NewDiffGroup::new_with_id(id[..35].to_string(), "ab".to_string(), None);
    assert_eq!(short_id.validate(), Err(vec![Violation::GroupIdTooShort]));
    let long_id = NewDiffGroup::new_with_id(format!("{}x", id), "ab".to_string(), None);
    assert_eq!(long_id.validate(), Ok(()));
    let wide_id = NewDiffGroup::new_with_id("猫".repeat(12), "ab".to_string(), None);
    assert_eq!(wide_id.validate(), Err(vec![Violation::GroupIdTooShort]));
    let both = NewDiffGroup::new_with_id(String::new(), String::new(), None);
    assert_eq!(
        both.validate(),
        Err(vec![Violation::GroupIdTooShort, Violation::GroupNameTooShort])
    );
}

#[test]
fn image_rules() {
    assert_eq!(image("/summer/2024").validate(), Ok(()));
    assert_eq!(
        image("summer").validate(),
        Err(vec![Violation::CollectionPathMalformed])
    );
    let mut empty_path = image("/summer");
    empty_path.file_path = String::new();
    assert_eq!(empty_path.validate(), Err(vec![Violation::FilePathEmpty]));
    let mut no_size = image("/summer");
    no_size.filesize = 0;
    assert_eq!(no_size.validate(), Err(vec![Violation::FileSizeNotPositive]));
    no_size.filesize = 1;
    assert_eq!(no_size.validate(), Ok(()));
    no_size.filesize = -4;
    assert_eq!(no_size.validate(), Err(vec![Violation::FileSizeNotPositive]));
    let mut no_checksum = image("/summer");
    no_checksum.checksum = None;
    assert_eq!(no_checksum.validate(), Ok(()));
    let mut short_checksum = image("/summer");
    short_checksum.checksum = Some("a".repeat(63));
    assert_eq!(short_checksum.validate(), Err(vec![Violation::ChecksumLength]));
    short_checksum.checksum = Some("a".repeat(65));
    assert_eq!(short_checksum.validate(), Err(vec![Violation::ChecksumLength]));
    short_checksum.checksum = Some("猫".repeat(64));
    assert_eq!(short_checksum.validate(), Ok(()));
}

#[test]
fn image_rules_are_all_reported_in_field_order() {
    let broken = NewImage {
        file_path: String::new(),
        collection_path: "/a//b".to_string(),
        filesize: 0,
        checksum: Some(String::new()),
        exif_json: Some("{}".to_string()),
    };
    assert_eq!(
        broken.validate(),
        Err(vec![
            Violation::FilePathEmpty,
            Violation::CollectionPathMalformed,
            Violation::FileSizeNotPositive,
            Violation::ChecksumLength,
        ])
    );
}

#[test]
fn tag_rules() {
    let tag = NewTag { tag_id: 1, tag_value: "ab".to_string() };
    assert_eq!(tag.validate(), Ok(()));
    let short = NewTag { tag_id: 1, tag_value: "a".to_string() };
    assert_eq!(short.validate(), Err(vec![Violation::TagValueTooShort]));
    let empty = NewTag { tag_id: 1, tag_value: String::new() };
    assert_eq!(empty.validate(), Err(vec![Violation::TagValueTooShort]));
}

#[test]
fn sort_order_rules() {
    let group = "3f2b8c1e-5d4a-4f6b-9c7d-0a1b2c3d4e5f".to_string();
    let unnamed = NewDiffGroupImage::new_without_sort_order(group.clone(), 1);
    assert_eq!(unnamed.validate(), Ok(()));
    for units in [0, 1, MAX_UNITS] {
        let named = NewDiffGroupImage::new(group.clone(), 1, Rank::from_units(units));
        assert_eq!(named.validate(), Ok(()));
    }
    for units in [-1, MAX_UNITS + 1, i64::MAX, i64::MIN] {
        let named = NewDiffGroupImage::new(group.clone(), 1, Rank::from_units(units));
        assert_eq!(named.validate(), Err(vec![Violation::SortOrderOutOfRange]));
    }
}

#[test]
fn violations_carry_their_messages() {
    assert_eq!(Violation::GroupIdTooShort.message(), "差分组uuid长度错误");
    assert_eq!(Violation::GroupNameTooShort.message(), "差分组名称需大于等于2个字符");
    assert_eq!(Violation::SortOrderOutOfRange.message(), "排序值必须大于等于0");
    assert_eq!(Violation::FilePathEmpty.message(), "文件路径不能为空");
    assert_eq!(Violation::CollectionPathMalformed.message(), "合集路径必须为有效的Unix风格路径");
    assert_eq!(Violation::FileSizeNotPositive.message(), "文件大小必须大于0");
    assert_eq!(Violation::ChecksumLength.message(), "校验和必须为64字符");
    assert_eq!(Violation::TagValueTooShort.message(), "标签值不能为空，至少2个字符");
}

#[test]
fn conclude_fails_where_a_rule_is_broken() {
    assert_eq!(Violation::conclude(Vec::new()), Ok(()));
    assert_eq!(
        Violation::conclude(vec![Violation::FilePathEmpty]),
        Err(vec![Violation::FilePathEmpty])
    );
    let mut found = vec![Violation::ChecksumLength];
    Violation::flag(true, Violation::FilePathEmpty, &mut found);
    assert_eq!(found, vec![Violation::ChecksumLength]);
    Violation::flag(false, Violation::FilePathEmpty, &mut found);
    assert_eq!(found, vec![Violation::ChecksumLength, Violation::FilePathEmpty]);
}

#[test]
fn keyword_pattern_wraps_the_keyword() {
    assert_eq!(DiffGroup::keyword_pattern("cat"), "%cat%");
    assert_eq!(DiffGroup::keyword_pattern(""), "%%");
    assert_eq!(DiffGroup::keyword_pattern("50%"), "%50%%");
}

#[test]
fn page_offset_counts_pages_from_one() {
    assert_eq!(page_offset(1, 20), Some(0));
    assert_eq!(page_offset(2, 20), Some(20));
    assert_eq!(page_offset(7, 25), Some(150));
    assert_eq!(page_offset(0, 20), Some(-20));
    assert_eq!(page_offset(5, 0), Some(0));
    assert_eq!(page_offset(i64::MIN, 0), Some(0));
    assert_eq!(page_offset(i64::MIN, 1), None);
    assert_eq!(page_offset(i64::MAX, 2), None);
    assert_eq!(page_offset(i64::MAX, 1), Some(i64::MAX - 1));
    assert_eq!(page_offset(3, i64::MAX), None);
    assert_eq!(page_offset(2, i64::MAX), Some(i64::MAX));
}

#[test]
fn custom_error_keeps_status_and_message() {
    let error = CustomError::new(418, "teapot".to_string());
    assert_eq!(error.status, 418);
    assert_eq!(error.message, "teapot");
}

#[test]
fn engine_errors_have_distinct_statuses() {
    let answers = [
        (EngineError::NotFound, NOT_FOUND, "资源未找到"),
        (EngineError::Conflict, CONFLICT, "记录已存在"),
        (EngineError::ValidationError, BAD_REQUEST, "验证错误"),
        (EngineError::OrderingInvariantViolation, UNPROCESSABLE_ENTITY, "相邻排序值顺序错误"),
        (EngineError::RankSpaceExhausted, INSUFFICIENT_STORAGE, "排序值空间已用尽"),
        (EngineError::StoreError, INTERNAL_SERVER_ERROR, "数据库错误"),
    ];
    for (error, status, message) in answers {
        let answer = CustomError::from_engine_error(error);
        assert_eq!(answer.status, status);
        assert_eq!(answer.message, message);
    }
    let mut statuses: Vec<u16> = answers.iter().map(|answer| answer.1).collect();
    statuses.sort();
    statuses.dedup();
    assert_eq!(statuses, vec![400, 404, 409, 422, 500, 507]);
}

#[test]
fn store_failures_are_classified() {
    assert_eq!(StoreFailure::NotFound.classify(), EngineError::NotFound);
    assert_eq!(StoreFailure::UniqueViolation.classify(), EngineError::Conflict);
    assert_eq!(StoreFailure::Other.classify(), EngineError::StoreError);
    let missing = CustomError::from_store_failure(StoreFailure::NotFound);
    assert_eq!(missing.status, 404);
    assert_eq!(missing.message, "资源未找到");
    let duplicate = CustomError::from_store_failure(StoreFailure::UniqueViolation);
    assert_eq!(duplicate.status, 409);
    assert_eq!(duplicate.message, "记录已存在");
    let other = CustomError::from_store_failure(StoreFailure::Other);
    assert_eq!(other.status, 500);
    assert_eq!(other.message, "数据库错误");
}

#[test]
fn plain_records_hold_their_fields() {
    let article = Article {
        id: 1,
        title: "t".to_string(),
        author: "a".to_string(),
        content: "c".to_string(),
        created_at: "2024-01-01".to_string(),
    };
    let posted = PostArticle {
        title: article.title.clone(),
        author: article.author.clone(),
        content: article.content.clone(),
        created_at: article.created_at.clone(),
    };
    assert_eq!(posted.title, "t");
    let group = DiffGroup {
        group_id: "g".to_string(),
        group_name: "n".to_string(),
        cover_image_id: None,
        created_at: "2024-01-01".to_string(),
    };
    assert_eq!(group.clone().group_name, "n");
    let stored = Image {
        id: 3,
        file_path: "/a.png".to_string(),
        collection_path: "/a".to_string(),
        filesize: 10,
        checksum: None,
        exif_json: None,
        created_at: "2024-01-01".to_string(),
        modified_at: "2024-01-02".to_string(),
    };
    assert_eq!(stored.filesize, 10);
    let tag = Tag { tag_id: 1, type_id: 2, tag_value: "cat".to_string() };
    assert_eq!(tag.type_id, 2);
    let kind = TagType { type_id: 2, name: "animal".to_string() };
    assert_eq!(kind.name, "animal");
    assert_eq!(ImageTag { image_id: 3, tag_id: 1 }, ImageTag { image_id: 3, tag_id: 1 });
    assert_ne!(NewImageTag { image_id: 3, tag_id: 1 }, NewImageTag { image_id: 3, tag_id: 2 });
}
