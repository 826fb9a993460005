//! Core of a resume and job-matching assistant: resume records, crawled job
//! postings and the rules that score how well a seeker fits a posting.
pub mod text;
pub mod patterns;
pub mod matching;
pub mod json;
pub mod models;
pub mod store;
pub mod resume_engine;
pub mod job_crawler;
