# zeroresume

The core of a resume-delivery assistant for Chinese job platforms: a SQLite
store of job seekers and of what their resumes are made of, a store of crawled
job postings, and the rules that decide how well a seeker fits a posting.

The library under `src/` carries its contracts and their proofs:

- `text` — substring search and decimal numerals over `Seq<char>` views;
- `patterns` — the years-of-experience and salary-range patterns a posting is
  read with, specified as leftmost greedy matches;
- `matching` — education levels, held skills, location agreement and the
  wording of match explanations;
- `json` — the JSON text of list columns, through `serde_json`;
- `store` — the SQL statements run through `rusqlite`, with each table modelled
  as a map from row id to its columns;
- `resume_engine`, `job_crawler` — the two stores, specified over that model,
  with their laws (what a read gives back after a write, how listings change).

`app/` holds what stays outside: opening database files, the weighted scoring
on `f64`, and serde-enabled copies of the records.
