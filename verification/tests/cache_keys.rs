use lib::cache_keys::{avatar_cache_key, cache_key, push_decimal};
use lib::ids::{AvatarId, AvatarRef, ChatId, MessageId};
use lib::retained_media::{key, owner};

#[test]
fn high_density_previews_do_not_reuse_legacy_cache_entries() {
    assert_ne!(cache_key(ChatId(10), MessageId(20)), "10:20".to_owned());
}

#[test]
fn preview_key_names_chat_and_message() {
    assert_eq!(cache_key(ChatId(10), MessageId(20)), "preview-v2:10:20");
    assert_eq!(cache_key(ChatId(-1001), MessageId(0)), "preview-v2:-1001:0");
}

#[test]
fn avatar_key_names_peer_and_picture() {
    let avatar = AvatarRef { peer: ChatId(7), id: AvatarId(-9223372036854775808) };
    assert_eq!(avatar_cache_key(avatar), "avatar-v2:7:-9223372036854775808");
}

#[test]
fn retained_files_are_kept_per_chat() {
    assert_eq!(owner(ChatId(7)), "chat:7");
    assert_eq!(key(ChatId(7), MessageId(9)), "original-v1:7:9");
}

#[test]
fn decimal_text_matches_the_standard_formatting() {
    for v in [0i64, 5, 9, 10, 99, 100, 12345, -1, -10, i64::MAX, i64::MIN] {
        let mut s = String::new();
        push_decimal(&mut s, v);
        assert_eq!(s, v.to_string());
    }
}

#[test]
fn different_messages_and_avatars_get_different_keys() {
    assert_ne!(cache_key(ChatId(1), MessageId(23)), cache_key(ChatId(12), MessageId(3)));
    assert_ne!(cache_key(ChatId(-1), MessageId(2)), cache_key(ChatId(1), MessageId(2)));
    let a = AvatarRef { peer: ChatId(1), id: AvatarId(11) };
    let b = AvatarRef { peer: ChatId(11), id: AvatarId(1) };
    assert_ne!(avatar_cache_key(a), avatar_cache_key(b));
}

#[test]
fn decimal_text_reads_back() {
    for v in [0i64, 7, -7, 1234567890, i64::MIN] {
        let mut s = String::new();
        push_decimal(&mut s, v);
        assert_eq!(s.parse::<i64>().unwrap(), v);
    }
}
