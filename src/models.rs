//! The data handled by the platform: users, articles, comments, pagination.
pub mod user;

pub use user::{User, UserPreview, UserView};
pub mod pagination;

pub use pagination::Pagination;
pub mod article;
pub mod comment;

pub use article::{Article, ArticlePreview};
pub use comment::Comment;
