use social_360::filter::{filter_content, Severity};
use social_360::identity::Identity;
use social_360::insights::{analyze_content, Category};
use social_360::social::Social;

fn who(n: u8) -> Identity {
    Identity::new(vec![n, 1, 2])
}

const T0: u64 = 1_000_000_000_000;
const HOUR: u64 = 3_600_000_000_000;

#[test]
fn first_post_gets_id_one_and_question_category() {
    let mut s = Social::new();
    let a = who(1);
    s.register(&a, "alice".to_string());
    let id = s.post_update(&a, "hello #test ?".to_string(), T0);
    assert_eq!(id, 1);
    let ups = s.get_user_updates(&a, 0, 10);
    assert_eq!(ups.len(), 1);
    assert!(!ups[0].is_moderated);
    assert!(!ups[0].is_hidden);
    let ins = analyze_content("hello #test ?");
    assert_eq!(ins.content_category, Category::Question);
    assert!(ins.content_score >= 75);
    assert_eq!(ins.content_score, 75);
}

#[test]
fn hateful_post_is_hidden_and_warned() {
    let mut s = Social::new();
    let a = who(1);
    s.register(&a, "alice".to_string());
    let id = s.post_update(&a, "I HATE EVERYTHING".to_string(), T0);
    assert_eq!(id, 1);
    let ups = s.get_moderated_updates();
    assert_eq!(ups.len(), 1);
    assert!(ups[0].is_hidden);
    assert_eq!(
        ups[0].moderation_reason.as_deref(),
        Some("Content contains inappropriate keyword: hate")
    );
    assert_eq!(s.get_user(&a).unwrap().warning_count, 1);
    let ws = s.get_user_warnings(&a);
    assert_eq!(ws.len(), 1);
    assert_eq!(ws[0].severity, Severity::High);
    assert_eq!(ws[0].expires_at, Some(T0 + 86_400_000_000_000));
}

#[test]
fn suspension_blocks_posting_until_it_ends() {
    let mut s = Social::new();
    let a = who(1);
    s.register(&a, "alice".to_string());
    assert!(s.suspend_user(&a, 1, T0));
    assert_eq!(s.post_update(&a, "still here".to_string(), T0), 0);
    assert_eq!(s.next_update_id, 1);
    assert_eq!(s.post_update(&a, "back again".to_string(), T0 + HOUR), 1);
}

#[test]
fn suspension_without_end_blocks_posting() {
    let mut s = Social::new();
    let a = who(1);
    s.register(&a, "alice".to_string());
    s.users.entries[0].1.is_suspended = true;
    assert_eq!(s.post_update(&a, "hi".to_string(), T0), 0);
    assert!(s.unsuspend_user(&a));
    assert_eq!(s.post_update(&a, "hi".to_string(), T0), 1);
}

#[test]
fn suspend_unknown_user_fails() {
    let mut s = Social::new();
    assert!(!s.suspend_user(&who(9), 1, T0));
    assert!(!s.unsuspend_user(&who(9)));
    assert!(!s.verify_user(&who(9)));
}

#[test]
fn quote_of_missing_update_changes_nothing() {
    let mut s = Social::new();
    let a = who(1);
    assert_eq!(s.quote_update(&a, 42, "x".to_string(), T0), 0);
    assert_eq!(s.next_update_id, 1);
    assert_eq!(s.updates.len(), 0);
    assert_eq!(s.repost_update(&a, 0, T0), 0);
    assert_eq!(s.next_update_id, 1);
}

#[test]
fn like_twice_restores_state() {
    let mut s = Social::new();
    let a = who(1);
    let b = who(2);
    let id = s.post_update(&a, "a post".to_string(), T0);
    assert!(s.like_update(&b, id));
    assert!(s.has_liked_update(id, &b));
    assert_eq!(s.updates[0].likes, 1);
    assert!(!s.like_update(&b, id));
    assert!(!s.has_liked_update(id, &b));
    assert_eq!(s.updates[0].likes, 0);
}

#[test]
fn like_of_missing_update_toggles_set_only() {
    let mut s = Social::new();
    let b = who(2);
    assert!(s.like_update(&b, 7));
    assert!(s.has_liked_update(7, &b));
    assert_eq!(s.updates.len(), 0);
}

#[test]
fn ids_increase_across_posts_reposts_and_quotes() {
    let mut s = Social::new();
    let a = who(1);
    let b = who(2);
    let p = s.post_update(&a, "original".to_string(), T0);
    let r = s.repost_update(&b, p, T0 + 1);
    let q = s.quote_update(&b, p, "nice".to_string(), T0 + 2);
    assert_eq!((p, r, q), (1, 2, 3));
    assert_eq!(s.updates[0].reposts, 1);
    assert_eq!(s.updates[0].quotes, 1);
    assert_eq!(s.updates[1].content, "Reposted: original");
    assert_eq!(s.updates[1].original_post_id, Some(1));
    assert_eq!(s.updates[2].content, "Quote: nice");
    assert_eq!(s.updates[2].quote_content.as_deref(), Some("original"));
    assert!(!s.has_reposted_update(p, &b));
}

#[test]
fn follow_is_mirrored_and_set_like() {
    let mut s = Social::new();
    let a = who(1);
    let b = who(2);
    s.follow(&a, &b);
    s.follow(&a, &b);
    let out = s.get_following(&a);
    let inb = s.get_followers(&b);
    assert_eq!(out.len(), 1);
    assert_eq!(out[0].bytes, b.bytes);
    assert_eq!(inb.len(), 1);
    assert_eq!(inb[0].bytes, a.bytes);
    assert_eq!(s.get_followers(&a).len(), 0);
    s.follow(&a, &a);
    assert_eq!(s.get_following(&a).len(), 2);
    assert_eq!(s.get_followers(&a).len(), 1);
}

#[test]
fn timeline_pages_newest_first() {
    let mut s = Social::new();
    let a = who(1);
    let b = who(2);
    let c = who(3);
    s.follow(&a, &b);
    s.post_update(&a, "one".to_string(), 10);
    s.post_update(&b, "two".to_string(), 30);
    s.post_update(&c, "three".to_string(), 40);
    s.post_update(&a, "four".to_string(), 20);
    let all = s.get_timeline(&a, 0, 3);
    let ids: Vec<u64> = all.iter().map(|u| u.id).collect();
    assert_eq!(ids, vec![2, 4, 1]);
    assert_eq!(s.get_timeline(&a, 1, 3).len(), 0);
    assert_eq!(s.get_timeline(&a, 3, 1).len(), 0);
    let second: Vec<u64> = s.get_timeline(&a, 1, 2).iter().map(|u| u.id).collect();
    assert_eq!(second, vec![1]);
    assert_eq!(s.get_timeline(&a, u64::MAX, u64::MAX).len(), 0);
}

#[test]
fn timeline_keeps_order_of_equal_timestamps() {
    let mut s = Social::new();
    let a = who(1);
    s.post_update(&a, "x".to_string(), 5);
    s.post_update(&a, "y".to_string(), 5);
    s.post_update(&a, "z".to_string(), 9);
    let ids: Vec<u64> = s.get_user_updates(&a, 0, 10).iter().map(|u| u.id).collect();
    assert_eq!(ids, vec![3, 1, 2]);
}

#[test]
fn search_is_case_insensitive() {
    let mut s = Social::new();
    let a = who(1);
    let b = who(2);
    s.register(&a, "Alice".to_string());
    s.register(&b, "bob".to_string());
    s.post_update(&a, "Rust is Great".to_string(), T0);
    s.post_update(&b, "nothing here".to_string(), T0);
    let found = s.search_updates("GREAT");
    assert_eq!(found.len(), 1);
    assert_eq!(found[0].id, 1);
    let users = s.search_users("AL");
    assert_eq!(users.len(), 1);
    assert_eq!(users[0].1.handle, "Alice");
    assert_eq!(s.search_users("").len(), 2);
}

#[test]
fn register_again_resets_account() {
    let mut s = Social::new();
    let a = who(1);
    s.register(&a, "alice".to_string());
    assert!(s.verify_user(&a));
    assert!(s.get_user(&a).unwrap().is_verified);
    s.register(&a, "alice2".to_string());
    let u = s.get_user(&a).unwrap();
    assert!(!u.is_verified);
    assert_eq!(u.handle, "alice2");
    assert!(s.get_user(&who(5)).is_none());
}

#[test]
fn flags_warn_the_author_and_resolve() {
    let mut s = Social::new();
    let a = who(1);
    let b = who(2);
    let id = s.post_update(&a, "calm words".to_string(), T0);
    assert!(s.flag_update(&b, id, "rude".to_string(), Severity::Medium, T0 + 5));
    let open = s.get_flagged_content();
    assert_eq!(open.len(), 1);
    let fid = open[0].0;
    assert_eq!(open[0].1.update_id, id);
    assert_eq!(open[0].1.flagged_by.bytes, b.bytes);
    let ws = s.get_user_warnings(&a);
    assert_eq!(ws.len(), 1);
    assert_eq!(ws[0].id, fid);
    assert_eq!(ws[0].reason, "rude");
    assert!(s.resolve_flag(fid));
    assert_eq!(s.get_flagged_content().len(), 0);
    assert!(!s.resolve_flag(fid + 100));
    assert!(!s.flag_update(&b, 99, "x".to_string(), Severity::Low, T0));
}

#[test]
fn moderated_update_cannot_be_flagged() {
    let mut s = Social::new();
    let a = who(1);
    let id = s.post_update(&a, "fine".to_string(), T0);
    assert!(s.moderate_update(id, "off topic".to_string(), Severity::Low));
    assert!(s.updates[0].is_hidden);
    assert_eq!(s.updates[0].moderation_reason.as_deref(), Some("off topic"));
    assert!(!s.flag_update(&a, id, "x".to_string(), Severity::Low, T0));
    assert!(s.unmoderate_update(id));
    assert!(!s.updates[0].is_moderated);
    assert_eq!(s.updates[0].moderation_reason, None);
    assert!(!s.moderate_update(5, "x".to_string(), Severity::Low));
    assert!(!s.unmoderate_update(0));
}

#[test]
fn filter_keywords_in_table_order() {
    let v = filter_content("This is a SCAM and fake");
    assert!(v.0);
    assert_eq!(v.1.as_deref(), Some("Content contains inappropriate keyword: scam"));
    assert_eq!(v.2, Severity::Medium);
    let w = filter_content("bullying is violence");
    assert_eq!(w.1.as_deref(), Some("Content contains inappropriate keyword: violence"));
    assert_eq!(w.2, Severity::High);
    assert_eq!(filter_content("pure spam").2, Severity::Low);
    assert_eq!(filter_content("misinformation spreads").1.as_deref(), Some("Content contains inappropriate keyword: misinformation"));
}

#[test]
fn filter_shouting_and_repeats() {
    let v = filter_content("WHY IS EVERYONE YELLING");
    assert!(v.0);
    assert_eq!(v.1.as_deref(), Some("Content appears to be shouting (excessive caps)"));
    assert_eq!(v.2, Severity::Low);
    assert!(!filter_content("SHORT CAPS").0);
    assert!(!filter_content("ABCDEFGhijk").0);
    let r = filter_content("sooooo good");
    assert_eq!(r.1.as_deref(), Some("Content contains excessive repetitive characters"));
    assert!(!filter_content("soooo good").0);
    assert!(!filter_content("a     b").0);
    let clean = filter_content("a nice day");
    assert_eq!(clean, (false, None, Severity::Low));
}

#[test]
fn insights_scores_and_advice() {
    let text = "What do you think about the new movie? I love it, amazing story #film #fun";
    let ins = analyze_content(text);
    assert_eq!(ins.word_count, 15);
    assert_eq!(ins.hashtag_count, 2);
    assert!(ins.has_question);
    // 50 + 20 (length) + 2 * 5 (what, think, love, amazing, story) + 10 + 15
    assert_eq!(ins.raw_score, 105);
    assert_eq!(ins.content_category, Category::Entertainment);
    assert_eq!(ins.best_posting_time, "Friday-Sunday, 7-9 PM");
    assert_eq!(ins.sentiment_tenths, 2);
    assert_eq!(ins.content_score, 100);
    assert_eq!(ins.audience_reach, 10000);
    assert_eq!(
        ins.optimization_suggestions,
        vec!["Add 1-2 relevant emojis to make your post more visually appealing".to_string()]
    );
}

#[test]
fn insights_plain_text() {
    let ins = analyze_content("my lunch today");
    assert_eq!(ins.raw_score, 50);
    assert_eq!(ins.content_score, 50);
    assert_eq!(ins.content_category, Category::Personal);
    assert_eq!(ins.audience_reach, 2000);
    assert_eq!(ins.best_posting_time, "Monday-Friday, 12-2 PM");
    assert_eq!(
        ins.optimization_suggestions,
        vec![
            "Consider adding more details to make your post more engaging".to_string(),
            "Add 1-3 relevant hashtags to increase discoverability".to_string(),
            "Ask a question to encourage engagement and comments".to_string(),
            "Add 1-2 relevant emojis to make your post more visually appealing".to_string(),
        ]
    );
    assert!(ins.trending_topics.is_empty());
}

#[test]
fn insights_emoji_tags_and_trends() {
    let ins = analyze_content("Crypto and AI \u{1F600}\u{1F600}\u{1F600}\u{1F600} #a #b #c #d at work");
    assert_eq!(ins.emoji_count, 4);
    assert_eq!(ins.hashtag_count, 4);
    assert_eq!(ins.content_category, Category::Professional);
    assert_eq!(ins.best_posting_time, "Tuesday-Thursday, 9-11 AM");
    assert_eq!(ins.trending_topics, vec!["ai".to_string(), "crypto".to_string()]);
    // 50 + 20 (11 words) - 5 (tags) - 5 (emoji)
    assert_eq!(ins.raw_score, 60);
    assert_eq!(ins.audience_reach, 2000);
    assert_eq!(
        ins.optimization_suggestions,
        vec![
            "Too many hashtags can look spammy. Use 1-3 relevant ones".to_string(),
            "Ask a question to encourage engagement and comments".to_string(),
            "Too many emojis can be distracting. Use 1-2 relevant ones".to_string(),
        ]
    );
}

#[test]
fn insights_negative_sentiment_and_long_text() {
    let ins = analyze_content("bad awful horrible");
    assert_eq!(ins.sentiment_tenths, -3);
    assert_eq!((ins.positive_hits, ins.negative_hits), (0, 3));
    let long = "word ".repeat(120);
    let l = analyze_content(&long);
    assert_eq!(l.word_count, 120);
    assert_eq!(l.raw_score, 60);
    assert_eq!(l.optimization_suggestions[0], "Your post is quite long. Consider breaking it into multiple posts");
}

#[test]
fn insights_are_deterministic() {
    let t = "Is this the best game? #fun \u{1F914}";
    let a = analyze_content(t);
    let b = analyze_content(t);
    assert_eq!(a.content_score, b.content_score);
    assert_eq!(a.raw_score, b.raw_score);
    assert_eq!(a.sentiment_tenths, b.sentiment_tenths);
    assert_eq!(a.content_category, b.content_category);
    assert_eq!(a.optimization_suggestions, b.optimization_suggestions);
    assert_eq!(a.trending_topics, b.trending_topics);
    assert_eq!(a.best_posting_time, b.best_posting_time);
    assert_eq!(a.audience_reach, b.audience_reach);
}

#[test]
fn suspension_end_saturates() {
    let mut s = Social::new();
    let a = who(1);
    s.register(&a, "alice".to_string());
    assert!(s.suspend_user(&a, u64::MAX, T0));
    assert_eq!(s.get_user(&a).unwrap().suspension_until, Some(u64::MAX));
    assert!(s.suspend_user(&a, 2, 5));
    assert_eq!(s.get_user(&a).unwrap().suspension_until, Some(5 + 2 * HOUR));
    assert_eq!(s.post_update(&a, "x".to_string(), u64::MAX), 1);
}

#[test]
fn flagged_post_without_account_warns_only() {
    let mut s = Social::new();
    let a = who(1);
    let id = s.post_update(&a, "this is a scam".to_string(), u64::MAX - 1);
    assert_eq!(id, 1);
    assert!(s.get_user(&a).is_none());
    let ws = s.get_user_warnings(&a);
    assert_eq!(ws.len(), 1);
    assert_eq!(ws[0].severity, Severity::Medium);
    assert_eq!(ws[0].expires_at, Some(u64::MAX));
    assert_eq!(ws[0].timestamp, u64::MAX - 1);
    assert!(s.get_flagged_content().is_empty());
}

#[test]
fn unlike_never_goes_below_zero() {
    let mut s = Social::new();
    let a = who(1);
    assert!(s.like_update(&a, 1));
    s.post_update(&a, "late".to_string(), T0);
    assert_eq!(s.updates[0].likes, 0);
    assert!(!s.like_update(&a, 1));
    assert_eq!(s.updates[0].likes, 0);
    assert!(!s.has_liked_update(1, &a));
}

#[test]
fn warnings_accumulate_on_the_account() {
    let mut s = Social::new();
    let a = who(1);
    s.register(&a, "alice".to_string());
    s.post_update(&a, "spam spam".to_string(), T0);
    s.post_update(&a, "NOBODY LISTENS TO ME EVER".to_string(), T0 + 1);
    s.post_update(&a, "a calm note".to_string(), T0 + 2);
    assert_eq!(s.get_user(&a).unwrap().warning_count, 2);
    let ws = s.get_user_warnings(&a);
    assert_eq!(ws.len(), 2);
    assert_eq!(ws[1].reason, "Content appears to be shouting (excessive caps)");
    assert!(ws[0].id < ws[1].id);
    assert_eq!(s.get_moderated_updates().len(), 2);
    assert_eq!(s.search_updates("calm").len(), 1);
    assert_eq!(s.search_updates("absent").len(), 0);
}
