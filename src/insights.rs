//! The content-scoring heuristic: a fixed, deterministic function from a
//! text to a score, a category, a sentiment and posting advice.
use vstd::prelude::*;
use crate::text::{char_vec, contains_text, has_infix, is_space, lower_of, lowercase, space_char};

verus! {

/// The characters counted as emoji.
pub const EMOJI: &'static str = "\u{1F600}\u{1F603}\u{1F604}\u{1F601}\u{1F606}\u{1F605}\u{1F602}\u{1F923}\u{1F60A}\u{1F607}\u{1F642}\u{1F643}\u{1F609}\u{1F60C}\u{1F60D}\u{1F970}\u{1F618}\u{1F617}\u{1F619}\u{1F61A}\u{1F60B}\u{1F61B}\u{1F61D}\u{1F61C}\u{1F92A}\u{1F928}\u{1F9D0}\u{1F913}\u{1F60E}\u{1F929}\u{1F973}\u{1F60F}\u{1F612}\u{1F61E}\u{1F614}\u{1F61F}\u{1F615}\u{1F641}\u{2639}\u{FE0F}\u{1F623}\u{1F616}\u{1F62B}\u{1F629}\u{1F97A}\u{1F622}\u{1F62D}\u{1F624}\u{1F620}\u{1F621}\u{1F92C}\u{1F92F}\u{1F633}\u{1F975}\u{1F976}\u{1F631}\u{1F628}\u{1F630}\u{1F625}\u{1F613}\u{1F917}\u{1F914}\u{1F92D}\u{1F92B}\u{1F925}\u{1F636}\u{1F610}\u{1F611}\u{1F62F}\u{1F626}\u{1F627}\u{1F62E}\u{1F632}\u{1F971}\u{1F634}\u{1F924}\u{1F62A}\u{1F635}\u{1F910}\u{1F974}\u{1F922}\u{1F92E}\u{1F927}\u{1F637}\u{1F912}\u{1F915}";

pub const TIP_DETAIL: &'static str = "Consider adding more details to make your post more engaging";
pub const TIP_SPLIT: &'static str = "Your post is quite long. Consider breaking it into multiple posts";
pub const TIP_ADD_TAGS: &'static str = "Add 1-3 relevant hashtags to increase discoverability";
pub const TIP_FEWER_TAGS: &'static str = "Too many hashtags can look spammy. Use 1-3 relevant ones";
pub const TIP_ASK: &'static str = "Ask a question to encourage engagement and comments";
pub const TIP_ADD_EMOJI: &'static str = "Add 1-2 relevant emojis to make your post more visually appealing";
pub const TIP_FEWER_EMOJI: &'static str = "Too many emojis can be distracting. Use 1-2 relevant ones";

pub const TIME_PROFESSIONAL: &'static str = "Tuesday-Thursday, 9-11 AM";
pub const TIME_ENTERTAINMENT: &'static str = "Friday-Sunday, 7-9 PM";
pub const TIME_DEFAULT: &'static str = "Monday-Friday, 12-2 PM";

/// The kind of a text, as the heuristic classifies it.
#[derive(Clone, Copy, Debug, PartialEq, Eq, Structural)]
pub enum Category {
    Personal,
    Professional,
    Entertainment,
    News,
    Educational,
    Promotional,
    Question,
    Story,
    Opinion,
    Other,
}

/// Words that each add to the score when they occur in the text.
pub open spec fn engagement_words() -> Seq<Seq<char>> {
    seq![
        "what"@, "how"@, "why"@, "when"@, "where"@, "who"@, "think"@, "believe"@, "feel"@,
        "love"@, "hate"@, "amazing"@, "incredible"@, "awesome"@, "terrible"@, "question"@,
        "help"@, "advice"@, "experience"@, "story"@, "opinion"@, "fact"@,
    ]
}

pub open spec fn positive_words() -> Seq<Seq<char>> {
    seq!["good"@, "great"@, "amazing"@, "love"@, "happy"@, "excellent"@, "wonderful"@]
}

pub open spec fn negative_words() -> Seq<Seq<char>> {
    seq!["bad"@, "terrible"@, "hate"@, "awful"@, "horrible"@, "disgusting"@]
}

pub open spec fn trend_words() -> Seq<Seq<char>> {
    seq![
        "technology"@, "ai"@, "blockchain"@, "crypto"@, "gaming"@, "sports"@, "music"@,
        "food"@, "travel"@,
    ]
}

/// The views of a sequence of texts.
pub open spec fn strs(ws: Seq<&str>) -> Seq<Seq<char>> {
    ws.map_values(|w: &str| w@)
}

pub open spec fn texts(ws: Seq<String>) -> Seq<Seq<char>> {
    ws.map_values(|w: String| w@)
}

/// How many of the words `ws` occur in `low`.
pub open spec fn hits(low: Seq<char>, ws: Seq<Seq<char>>) -> nat
    decreases ws.len(),
{
    if ws.len() == 0 {
        0
    } else {
        hits(low, ws.drop_last()) + if has_infix(low, ws.last()) { 1nat } else { 0nat }
    }
}

/// The words of `ws` that occur in `low`, in the order of `ws`.
pub open spec fn found(low: Seq<char>, ws: Seq<Seq<char>>) -> Seq<Seq<char>>
    decreases ws.len(),
{
    if ws.len() == 0 {
        Seq::empty()
    } else if has_infix(low, ws.last()) {
        found(low, ws.drop_last()).push(ws.last())
    } else {
        found(low, ws.drop_last())
    }
}

/// How often `c` occurs in `s`.
pub open spec fn char_count(s: Seq<char>, c: char) -> nat
    decreases s.len(),
{
    if s.len() == 0 {
        0
    } else {
        char_count(s.drop_last(), c) + if s.last() == c { 1nat } else { 0nat }
    }
}

/// How many characters of `s` are emoji.
pub open spec fn emoji_count(s: Seq<char>) -> nat
    decreases s.len(),
{
    if s.len() == 0 {
        0
    } else {
        emoji_count(s.drop_last()) + if EMOJI@.contains(s.last()) { 1nat } else { 0nat }
    }
}

/// A word starts at position `i`: a character that is not white space, first
/// or after white space.
pub open spec fn starts_word(s: Seq<char>, i: int) -> bool {
    !space_char(s[i]) && (i == 0 || space_char(s[i - 1]))
}

/// The number of maximal runs of characters other than white space.
pub open spec fn word_count(s: Seq<char>) -> nat
    decreases s.len(),
{
    if s.len() == 0 {
        0
    } else {
        word_count(s.drop_last()) + if starts_word(s, s.len() - 1) { 1nat } else { 0nat }
    }
}

pub open spec fn has_question(s: Seq<char>) -> bool {
    char_count(s, '?') > 0
}

pub open spec fn length_bonus(words: nat) -> int {
    if 10 <= words <= 50 {
        20
    } else if words > 50 {
        10
    } else {
        0
    }
}

/// One to three: +10; more than three: -5.
pub open spec fn tag_bonus(tags: nat) -> int {
    if 0 < tags <= 3 {
        10
    } else if tags > 3 {
        -5
    } else {
        0
    }
}

/// One to three: +5; more than three: -5.
pub open spec fn emoji_bonus(emojis: nat) -> int {
    if 0 < emojis <= 3 {
        5
    } else if emojis > 3 {
        -5
    } else {
        0
    }
}

/// The score of a text before it is capped at 100.
pub open spec fn raw_score(s: Seq<char>) -> int {
    let low = lower_of(s);
    50 + length_bonus(word_count(s)) + 2 * hits(low, engagement_words()) + tag_bonus(
        char_count(s, '#'),
    ) + (if has_question(s) { 15int } else { 0int }) + emoji_bonus(emoji_count(s))
}

pub open spec fn capped(score: int) -> int {
    if score > 100 {
        100
    } else {
        score
    }
}

/// The sentiment in tenths: one up for each positive word present, one down
/// for each negative word present, kept within -10 and 10.
pub open spec fn sentiment_of(s: Seq<char>) -> int {
    let low = lower_of(s);
    let raw = hits(low, positive_words()) - hits(low, negative_words());
    if raw > 10 {
        10
    } else if raw < -10 {
        -10
    } else {
        raw
    }
}

/// The category of a text: the first rule that matches wins.
pub open spec fn category_of(s: Seq<char>) -> Category {
    let low = lower_of(s);
    if has_infix(low, "work"@) || has_infix(low, "job"@) || has_infix(low, "career"@) {
        Category::Professional
    } else if has_infix(low, "movie"@) || has_infix(low, "game"@) || has_infix(low, "fun"@) {
        Category::Entertainment
    } else if has_infix(low, "news"@) || has_infix(low, "update"@) || has_infix(
        low,
        "announcement"@,
    ) {
        Category::News
    } else if has_infix(low, "learn"@) || has_infix(low, "study"@) || has_infix(
        low,
        "education"@,
    ) {
        Category::Educational
    } else if has_infix(low, "buy"@) || has_infix(low, "sale"@) || has_infix(low, "promotion"@) {
        Category::Promotional
    } else if has_question(s) {
        Category::Question
    } else if has_infix(low, "story"@) || has_infix(low, "happened"@) || has_infix(
        low,
        "experience"@,
    ) {
        Category::Story
    } else if has_infix(low, "think"@) || has_infix(low, "believe"@) || has_infix(
        low,
        "opinion"@,
    ) {
        Category::Opinion
    } else {
        Category::Personal
    }
}

/// The estimated audience for a score.
pub open spec fn reach_for(score: int) -> int {
    if score > 80 {
        10000
    } else if score > 60 {
        5000
    } else if score > 40 {
        2000
    } else {
        500
    }
}

pub open spec fn posting_time_for(c: Category) -> Seq<char> {
    if c == Category::Professional {
        TIME_PROFESSIONAL@
    } else if c == Category::Entertainment {
        TIME_ENTERTAINMENT@
    } else {
        TIME_DEFAULT@
    }
}

pub open spec fn push_if(tips: Seq<Seq<char>>, cond: bool, tip: Seq<char>) -> Seq<Seq<char>> {
    if cond {
        tips.push(tip)
    } else {
        tips
    }
}

/// The advice for a text, in a fixed order of checks.
pub open spec fn tips_of(s: Seq<char>) -> Seq<Seq<char>> {
    let words = word_count(s);
    let tags = char_count(s, '#');
    let emojis = emoji_count(s);
    let t1 = push_if(Seq::empty(), words < 10, TIP_DETAIL@);
    let t2 = push_if(t1, words > 100, TIP_SPLIT@);
    let t3 = push_if(t2, tags == 0, TIP_ADD_TAGS@);
    let t4 = push_if(t3, tags > 3, TIP_FEWER_TAGS@);
    let t5 = push_if(t4, !has_question(s) && raw_score(s) < 70, TIP_ASK@);
    let t6 = push_if(t5, emojis == 0, TIP_ADD_EMOJI@);
    push_if(t6, emojis > 3, TIP_FEWER_EMOJI@)
}

/// What the heuristic reports on a text. The engagement prediction and the
/// viral potential are fractional quantities derived from `raw_score`, the
/// sentiment hits, `has_question` and `hashtag_count`.
pub struct Insights {
    pub content_score: u8,
    pub raw_score: u32,
    pub sentiment_tenths: i32,
    pub positive_hits: usize,
    pub negative_hits: usize,
    pub word_count: usize,
    pub hashtag_count: usize,
    pub emoji_count: usize,
    pub has_question: bool,
    pub audience_reach: u32,
    pub optimization_suggestions: Vec<String>,
    pub trending_topics: Vec<String>,
    pub best_posting_time: String,
    pub content_category: Category,
}

impl Insights {
    /// Every field is what the heuristic gives for the text `s`.
    pub open spec fn describes(&self, s: Seq<char>) -> bool {
        &&& self.raw_score == raw_score(s)
        &&& self.content_score == capped(raw_score(s))
        &&& self.sentiment_tenths == sentiment_of(s)
        &&& self.positive_hits == hits(lower_of(s), positive_words())
        &&& self.negative_hits == hits(lower_of(s), negative_words())
        &&& self.word_count == word_count(s)
        &&& self.hashtag_count == char_count(s, '#')
        &&& self.emoji_count == emoji_count(s)
        &&& self.has_question == has_question(s)
        &&& self.audience_reach == reach_for(raw_score(s))
        &&& texts(self.optimization_suggestions@) == tips_of(s)
        &&& texts(self.trending_topics@) == found(lower_of(s), trend_words())
        &&& self.best_posting_time@ == posting_time_for(category_of(s))
        &&& self.content_category == category_of(s)
    }

    /// The two reports agree on every field.
    pub open spec fn agrees_with(&self, o: &Insights) -> bool {
        &&& self.raw_score == o.raw_score
        &&& self.content_score == o.content_score
        &&& self.sentiment_tenths == o.sentiment_tenths
        &&& self.positive_hits == o.positive_hits
        &&& self.negative_hits == o.negative_hits
        &&& self.word_count == o.word_count
        &&& self.hashtag_count == o.hashtag_count
        &&& self.emoji_count == o.emoji_count
        &&& self.has_question == o.has_question
        &&& self.audience_reach == o.audience_reach
        &&& texts(self.optimization_suggestions@) == texts(o.optimization_suggestions@)
        &&& texts(self.trending_topics@) == texts(o.trending_topics@)
        &&& self.best_posting_time@ == o.best_posting_time@
        &&& self.content_category == o.content_category
    }
}

/// The heuristic holds no state and draws on no chance: two reports on the
/// same text agree on every field.
pub proof fn lemma_insights_deterministic(a: &Insights, b: &Insights, s: Seq<char>)
    requires
        a.describes(s),
        b.describes(s),
    ensures
        a.agrees_with(b),
{
}

fn engagement_table() -> (r: Vec<&'static str>)
    ensures
        strs(r@) == engagement_words(),
{
    let r = vec![
        "what", "how", "why", "when", "where", "who", "think", "believe", "feel", "love", "hate",
        "amazing", "incredible", "awesome", "terrible", "question", "help", "advice", "experience",
        "story", "opinion", "fact",
    ];
    assert(strs(r@) =~= engagement_words());
    r
}

fn positive_table() -> (r: Vec<&'static str>)
    ensures
        strs(r@) == positive_words(),
{
    let r = vec!["good", "great", "amazing", "love", "happy", "excellent", "wonderful"];
    assert(strs(r@) =~= positive_words());
    r
}

fn negative_table() -> (r: Vec<&'static str>)
    ensures
        strs(r@) == negative_words(),
{
    let r = vec!["bad", "terrible", "hate", "awful", "horrible", "disgusting"];
    assert(strs(r@) =~= negative_words());
    r
}

fn trend_table() -> (r: Vec<&'static str>)
    ensures
        strs(r@) == trend_words(),
{
    let r = vec![
        "technology", "ai", "blockchain", "crypto", "gaming", "sports", "music", "food", "travel",
    ];
    assert(strs(r@) =~= trend_words());
    r
}

/// How many of `words` occur in `low`.
fn count_hits(low: &Vec<char>, words: &Vec<&str>) -> (r: usize)
    ensures
        r == hits(low@, strs(words@)),
        r <= words.len(),
{
    let mut n: usize = 0;
    let mut i: usize = 0;
    while i < words.len()
        invariant
            i <= words.len(),
            n <= i,
            n == hits(low@, strs(words@).take(i as int)),
        decreases words.len() - i,
    {
        proof {
            assert(strs(words@).take(i + 1).drop_last() =~= strs(words@).take(i as int));
        }
        if contains_text(low, words[i]) {
            n += 1;
        }
        i += 1;
    }
    assert(strs(words@).take(words.len() as int) =~= strs(words@));
    n
}

/// The words of `words` that occur in `low`, in order.
fn find_words(low: &Vec<char>, words: &Vec<&str>) -> (r: Vec<String>)
    ensures
        texts(r@) == found(low@, strs(words@)),
{
    let mut out: Vec<String> = Vec::new();
    let mut i: usize = 0;
    while i < words.len()
        invariant
            i <= words.len(),
            texts(out@) == found(low@, strs(words@).take(i as int)),
        decreases words.len() - i,
    {
        proof {
            assert(strs(words@).take(i + 1).drop_last() =~= strs(words@).take(i as int));
        }
        if contains_text(low, words[i]) {
            let ghost before = out@;
            out.push(String::from_str(words[i]));
            assert(texts(out@) =~= texts(before).push(words@[i as int]@));
        }
        i += 1;
    }
    assert(strs(words@).take(words.len() as int) =~= strs(words@));
    out
}

fn count_char(s: &Vec<char>, c: char) -> (r: usize)
    ensures
        r == char_count(s@, c),
{
    let mut n: usize = 0;
    let mut i: usize = 0;
    while i < s.len()
        invariant
            i <= s.len(),
            n <= i,
            n == char_count(s@.take(i as int), c),
        decreases s.len() - i,
    {
        proof {
            assert(s@.take(i + 1).drop_last() =~= s@.take(i as int));
        }
        if s[i] == c {
            n += 1;
        }
        i += 1;
    }
    assert(s@.take(s.len() as int) =~= s@);
    n
}

fn member(set: &Vec<char>, c: char) -> (r: bool)
    ensures
        r == set@.contains(c),
{
    let mut i: usize = 0;
    while i < set.len()
        invariant
            i <= set.len(),
            forall|t: int| 0 <= t < i ==> set@[t] != c,
        decreases set.len() - i,
    {
        if set[i] == c {
            return true;
        }
        i += 1;
    }
    false
}

fn count_emoji(s: &Vec<char>) -> (r: usize)
    ensures
        r == emoji_count(s@),
{
    let set = char_vec(EMOJI);
    let mut n: usize = 0;
    let mut i: usize = 0;
    while i < s.len()
        invariant
            i <= s.len(),
            n <= i,
            set@ == EMOJI@,
            n == emoji_count(s@.take(i as int)),
        decreases s.len() - i,
    {
        proof {
            assert(s@.take(i + 1).drop_last() =~= s@.take(i as int));
        }
        if member(&set, s[i]) {
            n += 1;
        }
        i += 1;
    }
    assert(s@.take(s.len() as int) =~= s@);
    n
}

fn count_words(s: &Vec<char>) -> (r: usize)
    ensures
        r == word_count(s@),
{
    let mut n: usize = 0;
    let mut i: usize = 0;
    let mut prev_space = true;
    while i < s.len()
        invariant
            i <= s.len(),
            n <= i,
            n == word_count(s@.take(i as int)),
            i > 0 ==> prev_space == space_char(s@[i - 1]),
            i == 0 ==> prev_space,
        decreases s.len() - i,
    {
        let sp = is_space(s[i]);
        proof {
            let t = s@.take(i + 1);
            assert(t.drop_last() =~= s@.take(i as int));
            assert(starts_word(t, i as int) == (!sp && prev_space));
        }
        if !sp && prev_space {
            n += 1;
        }
        prev_space = sp;
        i += 1;
    }
    assert(s@.take(s.len() as int) =~= s@);
    n
}

fn push_tip(tips: &mut Vec<String>, cond: bool, tip: &str)
    ensures
        texts(final(tips)@) == push_if(texts(old(tips)@), cond, tip@),
{
    if cond {
        tips.push(String::from_str(tip));
        assert(texts(tips@) =~= texts(old(tips)@).push(tip@));
    }
}

fn category_for(content: &str, low: &Vec<char>, question: bool) -> (r: Category)
    requires
        low@ == lower_of(content@),
        question == has_question(content@),
    ensures
        r == category_of(content@),
{
    if contains_text(low, "work") || contains_text(low, "job") || contains_text(low, "career") {
        Category::Professional
    } else if contains_text(low, "movie") || contains_text(low, "game") || contains_text(
        low,
        "fun",
    ) {
        Category::Entertainment
    } else if contains_text(low, "news") || contains_text(low, "update") || contains_text(
        low,
        "announcement",
    ) {
        Category::News
    } else if contains_text(low, "learn") || contains_text(low, "study") || contains_text(
        low,
        "education",
    ) {
        Category::Educational
    } else if contains_text(low, "buy") || contains_text(low, "sale") || contains_text(
        low,
        "promotion",
    ) {
        Category::Promotional
    } else if question {
        Category::Question
    } else if contains_text(low, "story") || contains_text(low, "happened") || contains_text(
        low,
        "experience",
    ) {
        Category::Story
    } else if contains_text(low, "think") || contains_text(low, "believe") || contains_text(
        low,
        "opinion",
    ) {
        Category::Opinion
    } else {
        Category::Personal
    }
}

/// Scores a text: the score, the sentiment, the category, the advice, the
/// trending topics and the best time to post, all fixed by the text alone.
pub fn analyze_content(content: &str) -> (r: Insights)
    ensures
        r.describes(content@),
{
    let low_text = lowercase(content);
    let low = char_vec(low_text.as_str());
    let chars = char_vec(content);

    let words = count_words(&chars);
    let mut score: u32 = 50;
    if words >= 10 && words <= 50 {
        score = score + 20;
    } else if words > 50 {
        score = score + 10;
    }
    let engaging = count_hits(&low, &engagement_table());
    score = score + 2 * engaging as u32;
    let tags = count_char(&chars, '#');
    if tags > 0 && tags <= 3 {
        score = score + 10;
    } else if tags > 3 {
        score = score - 5;
    }
    let question = count_char(&chars, '?') > 0;
    if question {
        score = score + 15;
    }
    let emojis = count_emoji(&chars);
    if emojis > 0 && emojis <= 3 {
        score = score + 5;
    } else if emojis > 3 {
        score = score - 5;
    }
    assert(score == raw_score(content@));

    let positive = count_hits(&low, &positive_table());
    let negative = count_hits(&low, &negative_table());
    let mut sentiment: i32 = positive as i32 - negative as i32;
    if sentiment > 10 {
        sentiment = 10;
    } else if sentiment < -10 {
        sentiment = -10;
    }

    let category = category_for(content, &low, question);
    let reach: u32 = if score > 80 {
        10000
    } else if score > 60 {
        5000
    } else if score > 40 {
        2000
    } else {
        500
    };

    let mut tips: Vec<String> = Vec::new();
    push_tip(&mut tips, words < 10, TIP_DETAIL);
    push_tip(&mut tips, words > 100, TIP_SPLIT);
    push_tip(&mut tips, tags == 0, TIP_ADD_TAGS);
    push_tip(&mut tips, tags > 3, TIP_FEWER_TAGS);
    push_tip(&mut tips, !question && score < 70, TIP_ASK);
    push_tip(&mut tips, emojis == 0, TIP_ADD_EMOJI);
    push_tip(&mut tips, emojis > 3, TIP_FEWER_EMOJI);

    let topics = find_words(&low, &trend_table());

    let time = if category == Category::Professional {
        String::from_str(TIME_PROFESSIONAL)
    } else if category == Category::Entertainment {
        String::from_str(TIME_ENTERTAINMENT)
    } else {
        String::from_str(TIME_DEFAULT)
    };

    let content_score: u8 = if score > 100 {
        100
    } else {
        score as u8
    };
    let r = Insights {
        content_score,
        raw_score: score,
        sentiment_tenths: sentiment,
        positive_hits: positive,
        negative_hits: negative,
        word_count: words,
        hashtag_count: tags,
        emoji_count: emojis,
        has_question: question,
        audience_reach: reach,
        optimization_suggestions: tips,
        trending_topics: topics,
        best_posting_time: time,
        content_category: category,
    };
    // The report's fields, one by one, against the heuristic's definition.
    assert(r.raw_score == raw_score(content@));
    assert(r.content_score == capped(raw_score(content@)));
    assert(r.sentiment_tenths == sentiment_of(content@));
    assert(r.audience_reach == reach_for(raw_score(content@)));
    assert(texts(r.optimization_suggestions@) == tips_of(content@));
    assert(texts(r.trending_topics@) == found(lower_of(content@), trend_words()));
    assert(r.best_posting_time@ == posting_time_for(category_of(content@)));
    r
}

} // verus!
