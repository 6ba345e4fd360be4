//! The texts that ask for a summary.

use vstd::prelude::*;

verus! {

/// The directive that stands before every prompt, up to the name of the program
/// that reads it: the answer is read from the standard output.
pub const DIRECTIVE_START: &'static str = r#"CRITICAL OUTPUT CONTRACT — read before doing anything else:
- This prompt is being piped through `"#;

/// The directive between the name of the program and that of its directory.
pub const DIRECTIVE_MIDDLE: &'static str = r#" --print` by an automated subprocess that captures your stdout and parses it.
- Respond with the final text inline in this reply ONLY. Do NOT call any tools.
- Do NOT enter plan mode, do NOT use EnterPlanMode/ExitPlanMode, do NOT use Skill, do NOT use Write/Edit, do NOT save a plan file under ~/."#;

/// The rest of the directive.
pub const DIRECTIVE_END: &'static str = r#"/plans, do NOT create files anywhere.
- Do NOT print status messages like "Plan file written" or "Done". Your entire stdout must be the two delimited sections described below — nothing else.
- If you feel the urge to "save" or "write" the result somewhere, suppress it. Just print the result.

"#;

/// What stands before a diff that is summarized as a whole.
pub const PROMPT_TEMPLATE: &'static str = r#"You are a senior technical resume writer. Analyze the following git diff content and produce TWO versions of a project summary in a single output.

Carefully examine: file paths, package names, import statements, frameworks, APIs, database schemas, config files, commit messages, test files, CI/CD configs, and code patterns. Extract every piece of technical evidence you can find.

Output BOTH versions below, separated by the exact delimiter shown. Entirely in English.

================================================================================
VERSION 1: PROFESSIONAL RESUME
================================================================================

---
title: "<Project Name>"
type: resume-entry
status: under review
date_start: YYYY-MM
date_end: YYYY-MM
tags: [resume, <domain-tag>, <tech-tag>, ...]
tech: [<Language>, <Framework>, <Library>, ...]
repo: <repository URL if visible in diff, otherwise omit this line>
---

# <Project Name>
📅 MM/YYYY - MM/YYYY

## Summary
A concise paragraph (2-3 sentences) describing the project, its domain, and your role.

## Key Accomplishments
- 4-6 bullet points using the PAR method (Problem → Action → Result)
- Pattern: "Resolved [specific problem or bottleneck] by [technical action using technology], resulting in [measurable outcome]"
- Focus on the most impressive, resume-worthy achievements
- Quantify where possible (performance gains, error reduction, endpoints, etc.)

## Tech Stack
Single line, comma-separated: Language, Framework, Database, Infrastructure, Tools

================================================================================
VERSION 2: DETAILED TECHNICAL ANALYSIS (LLM SOURCE)
================================================================================

---
title: "<Project Name> — Technical Summary"
type: project-summary
status: under review
date_start: YYYY-MM
date_end: YYYY-MM
related: "[[resume]]"
tags: [project, <domain-tag>, <tech-tag>, analysis]
---

# <Project Name>
📅 MM/YYYY - MM/YYYY

## Project Overview
A detailed paragraph (4-6 sentences) describing:
- What the project is and its business domain (e.g., ML platform, e-commerce, fintech, developer tooling)
- The overall system architecture (monolith, microservices, client-server, etc.)
- Who the end users are and what problem it solves
- The scale and complexity if inferable (number of services, endpoints, models, etc.)

## Technical Architecture
Describe the system design in detail:
- How the codebase is organized (modules, packages, layers)
- Key architectural patterns used (MVC, event-driven, CQRS, repository pattern, etc.)
- Data flow: how requests are processed from entry point to response
- Integration points with external systems, APIs, or services
- Authentication/authorization approach if visible
- Database schema design or data modeling approach if visible

## Key Technical Contributions
- 6-12 detailed bullet points of concrete technical work evidenced in the diffs, using the PAR method
- Each bullet should be 1-2 sentences: the problem/challenge addressed, the technical approach taken, and the resulting capability or outcome
- Pattern: "Addressed [specific technical problem or gap] by [implementing/designing/building approach using technology], enabling [outcome/capability]"
- Cover: features built, APIs designed, data models created, algorithms implemented, performance optimizations, security measures, testing strategies, DevOps/CI-CD work
- Include specific details: endpoint paths, class/module names, configuration parameters, library usage
- If quantifiable metrics are inferable (number of endpoints, test cases, models, migrations), include them

## Technology Stack
List every technology, framework, library, and tool evidenced in the code, organized by category:
- **Languages**: (with version if visible)
- **Frameworks**:
- **Libraries/Dependencies**:
- **Databases/Storage**:
- **Infrastructure/DevOps**:
- **Testing**:
- **Build Tools**:
- **Other Tools/Services**:

## Technical Challenges & Solutions
2-4 paragraphs describing:
- The most complex technical problems visible in the diffs
- How they were approached and solved
- Design trade-offs that were made (if inferable from code comments, commit messages, or architectural choices)
- Any refactoring or iteration visible across commits

## Code Quality Indicators
Note any evidence of:
- Testing practices (unit tests, integration tests, test coverage)
- Code review patterns (if visible from commit messages)
- Documentation practices
- Error handling and logging approaches
- Security considerations

Rules:
- Only claim what is directly evidenced in the diffs. Do not fabricate features or technologies.
- Version 1 should be polished and human-readable — ready to paste into a resume.
- Version 2 should be verbose and thorough — it will be consumed by an LLM for generating tailored resumes, cover letters, and interview prep. More detail is better.
- When uncertain about something, phrase it as "appears to" or "likely" rather than omitting it.
- Include raw technical details (class names, endpoint paths, config keys) in Version 2.
- If the diffs are too small for a full analysis, still extract every detail possible and note the limited scope.
- Each version must begin with a valid YAML frontmatter block (opened and closed by `---` on their own lines) so the file is readable by Obsidian. Do not emit placeholder angle-bracket values — fill every field from diff evidence, and omit any field (e.g. `repo`) when no evidence is available. `date_start` / `date_end` must use the `YYYY-MM` format (e.g. `2024-03`).

Output ONLY the two versions with the delimiters, no additional commentary.

=== GIT DIFF CONTENT STARTS HERE ===
"#;

/// What stands before one chunk of a diff.
pub const CHUNK_PROMPT_TEMPLATE: &'static str = r#"Extract every piece of technical information from this git diff chunk. This will be merged with other chunks to build a comprehensive project summary for resume generation.

Be exhaustive — capture everything visible:

1. **Project/Repository**: name, path, organization (if visible)
2. **Date range**: commit dates (if visible)
3. **Technologies**: every language, framework, library, database, infrastructure tool, and service evidenced
4. **Problems & challenges**: specific bottlenecks, pain points, or limitations the changes are addressing (e.g., latency, scalability, missing feature, bug, tech debt)
5. **Features & APIs**: specific endpoints, controllers, services, data models, UI components implemented or modified
6. **Architecture**: patterns (MVC, microservices, event-driven, etc.), module organization, layer separation
7. **Data models**: schemas, entities, migrations, relationships
8. **Infrastructure**: Docker, CI/CD, cloud services, deployment configs
9. **Testing**: test files, testing frameworks, test patterns
10. **Technical complexity**: algorithms, business logic, error handling, security measures
11. **Domain context**: what business problem does this code solve? Who are the users?
12. **Code quality signals**: logging, documentation, error handling patterns, code organization

Output detailed structured bullet points under each category. Include specific class names, file paths, and endpoint paths where visible. Skip categories that have no evidence in this chunk.

=== GIT DIFF CHUNK ===
"#;

/// What stands before the summaries of the chunks of a diff.
pub const MERGE_PROMPT_TEMPLATE: &'static str = r#"You are a senior technical resume writer. Based on the following partial analyses from different chunks of the same git diff file, create TWO versions of a unified project summary.

Deduplicate, synthesize, and enrich the information. Combine overlapping details and resolve any contradictions.

Output BOTH versions below, separated by the exact delimiter shown. Entirely in English.

================================================================================
VERSION 1: PROFESSIONAL RESUME
================================================================================

---
title: "<Project Name>"
type: resume-entry
status: <complete|in-progress|archived>
date_start: YYYY-MM
date_end: YYYY-MM
tags: [resume, <domain-tag>, <tech-tag>, ...]
tech: [<Language>, <Framework>, <Library>, ...]
repo: <repository URL if visible in diff, otherwise omit this line>
---

# <Project Name>
📅 MM/YYYY - MM/YYYY

## Summary
A concise paragraph (2-3 sentences) describing the project, its domain, and your role.

## Key Accomplishments
- 4-6 bullet points using the PAR method (Problem → Action → Result)
- Pattern: "Resolved [specific problem or bottleneck] by [technical action using technology], resulting in [measurable outcome]"
- Focus on the most impressive, resume-worthy achievements
- Quantify where possible

## Tech Stack
Single line, comma-separated: Language, Framework, Database, Infrastructure, Tools

================================================================================
VERSION 2: DETAILED TECHNICAL ANALYSIS (LLM SOURCE)
================================================================================

---
title: "<Project Name> — Technical Summary"
type: project-summary
status: <complete|in-progress|archived>
date_start: YYYY-MM
date_end: YYYY-MM
related: "[[resume]]"
tags: [project, <domain-tag>, <tech-tag>, analysis]
---

# <Project Name>
📅 MM/YYYY - MM/YYYY

## Project Overview
A detailed paragraph (4-6 sentences) describing: what the project is, its business domain, the overall system architecture, who the end users are, and the scale/complexity.

## Technical Architecture
Describe the system design in detail: codebase organization, architectural patterns, data flow, integration points, auth approach, database design.

## Key Technical Contributions
- 6-12 detailed bullet points of concrete technical work, using the PAR method
- Each bullet: 1-2 sentences covering the problem addressed, the technical approach taken, and the resulting outcome
- Pattern: "Addressed [specific technical problem or gap] by [implementing/designing/building approach using technology], enabling [outcome/capability]"
- Include specific details: endpoint paths, class names, config parameters, library usage
- Include quantifiable metrics where inferable

## Technology Stack
List every evidenced technology organized by category:
- **Languages**: (with version if visible)
- **Frameworks**:
- **Libraries/Dependencies**:
- **Databases/Storage**:
- **Infrastructure/DevOps**:
- **Testing**:
- **Build Tools**:
- **Other Tools/Services**:

## Technical Challenges & Solutions
2-4 paragraphs on: complex problems visible in the code, how they were solved, design trade-offs, refactoring or iteration across commits.

## Code Quality Indicators
Evidence of: testing practices, documentation, error handling, logging, security considerations.

Rules:
- Only claim what is directly evidenced in the partial analyses. Do not fabricate.
- Version 1 should be polished and human-readable — ready to paste into a resume.
- Version 2 should be verbose and thorough — more detail is better for downstream LLM consumption.
- When uncertain, phrase as "appears to" or "likely" rather than omitting.
- Include raw technical details (class names, endpoint paths, config keys) in Version 2.
- Each version must begin with a valid YAML frontmatter block (opened and closed by `---` on their own lines) so the file is readable by Obsidian. Do not emit placeholder angle-bracket values — fill every field from evidence in the partial summaries, and omit any field (e.g. `repo`) when no evidence is available. `date_start` / `date_end` must use the `YYYY-MM` format (e.g. `2024-03`).

Output ONLY the two versions with the delimiters, no additional commentary.

=== PARTIAL SUMMARIES ===
"#;

} // verus!
