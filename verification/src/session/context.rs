use std::collections::HashMap;
use vstd::prelude::*;

use crate::clock::Timestamp;

verus! {

/// A session: its identifier, the book and chapter being worked on, the
/// user's preferences, and when it started and was last active.
#[derive(Debug, Clone)]
pub struct SessionContext {
    pub session_id: String,
    pub book_id: Option<String>,
    pub chapter_id: Option<String>,
    pub user_preferences: HashMap<String, String>,
    pub created_at: Timestamp,
    pub last_active: Timestamp,
}

impl SessionContext {
    /// A session that starts now, with no book, no chapter and no
    /// preferences; it was last active when it started.
    pub fn new(session_id: &str) -> (s: Self)
        ensures
            s.session_id@ == session_id@,
            s.book_id is None,
            s.chapter_id is None,
            s.user_preferences@ == Map::<String, String>::empty(),
            s.created_at == s.last_active,
            s.created_at.secs >= 0,
            s.created_at.nanos < 1_000_000_000,
    {
        let now = Timestamp::now();
        SessionContext {
            session_id: String::from_str(session_id),
            book_id: None,
            chapter_id: None,
            user_preferences: HashMap::new(),
            created_at: now,
            last_active: now,
        }
    }

    /// The session, now on the book `book_id`.
    pub fn with_book(self, book_id: &str) -> (s: Self)
        ensures
            s.book_id matches Some(b) && b@ == book_id@,
            s.session_id == self.session_id,
            s.chapter_id == self.chapter_id,
            s.user_preferences == self.user_preferences,
            s.created_at == self.created_at,
            s.last_active == self.last_active,
    {
        SessionContext { book_id: Some(String::from_str(book_id)), ..self }
    }

    /// The session, now on the chapter `chapter_id`.
    pub fn with_chapter(self, chapter_id: &str) -> (s: Self)
        ensures
            s.chapter_id matches Some(c) && c@ == chapter_id@,
            s.session_id == self.session_id,
            s.book_id == self.book_id,
            s.user_preferences == self.user_preferences,
            s.created_at == self.created_at,
            s.last_active == self.last_active,
    {
        SessionContext { chapter_id: Some(String::from_str(chapter_id)), ..self }
    }
}

} // verus!
