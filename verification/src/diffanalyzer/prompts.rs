//! The texts that ask for a summary.

use vstd::prelude::*;

verus! {

/// What stands before a diff that is summarized as a whole.
pub const PROMPT_TEMPLATE: &'static str = r#"You are a senior technical resume writer. Analyze the following git diff content and produce THREE versions of a project summary in a single output.

Carefully examine: file paths, package names, import statements, frameworks, APIs, database schemas, config files, commit messages, test files, CI/CD configs, and code patterns. Extract every piece of technical evidence you can find.

Output ALL THREE versions below, separated by the exact delimiter shown. Entirely in English.

================================================================================
VERSION 1: PROFESSIONAL RESUME
================================================================================

# <Project Name>
📅 MM/YYYY - MM/YYYY

## Summary
A concise paragraph (2-3 sentences) describing the project, its domain, and your role.

## Key Accomplishments
- 4-6 bullet points, each one concise sentence
- Follow the pattern: "[Action verb] [what] using [technology], resulting in [impact]"
- Focus on the most impressive, resume-worthy achievements
- Quantify where possible (endpoints, models, performance gains, etc.)

## Tech Stack
Single line, comma-separated: Language, Framework, Database, Infrastructure, Tools

================================================================================
VERSION 2: DETAILED TECHNICAL ANALYSIS (LLM SOURCE)
================================================================================

# <Project Name>
📅 MM/YYYY - MM/YYYY

## Project Overview
A detailed paragraph (4-6 sentences) describing:
- What the project is and its business domain (e.g., ML platform, e-commerce, fintech, developer tooling)
- The overall system architecture (monolith, microservices, client-server, etc.)
- Who the end users are and what problem it solves
- The scale and complexity if inferable (number of services, endpoints, models, etc.)

## Technical Architecture
Describe the system design in detail:
- How the codebase is organized (modules, packages, layers)
- Key architectural patterns used (MVC, event-driven, CQRS, repository pattern, etc.)
- Data flow: how requests are processed from entry point to response
- Integration points with external systems, APIs, or services
- Authentication/authorization approach if visible
- Database schema design or data modeling approach if visible

## Key Technical Contributions
- 6-12 detailed bullet points of concrete technical work evidenced in the diffs
- Each bullet should be specific and descriptive (1-2 sentences each)
- Follow the pattern: "Implemented/Designed/Built/Optimized [specific feature] by [technical approach], enabling [outcome/capability]"
- Cover: features built, APIs designed, data models created, algorithms implemented, performance optimizations, security measures, testing strategies, DevOps/CI-CD work
- Include specific details: endpoint paths, class/module names, configuration parameters, library usage
- If quantifiable metrics are inferable (number of endpoints, test cases, models, migrations), include them

## Technology Stack
List every technology, framework, library, and tool evidenced in the code, organized by category:
- **Languages**: (with version if visible)
- **Frameworks**:
- **Libraries/Dependencies**:
- **Databases/Storage**:
- **Infrastructure/DevOps**:
- **Testing**:
- **Build Tools**:
- **Other Tools/Services**:

## Technical Challenges & Solutions
2-4 paragraphs describing:
- The most complex technical problems visible in the diffs
- How they were approached and solved
- Design trade-offs that were made (if inferable from code comments, commit messages, or architectural choices)
- Any refactoring or iteration visible across commits

## Code Quality Indicators
Note any evidence of:
- Testing practices (unit tests, integration tests, test coverage)
- Code review patterns (if visible from commit messages)
- Documentation practices
- Error handling and logging approaches
- Security considerations

================================================================================
VERSION 3: LINKEDIN PROJECT
================================================================================

# <Project Name>
<Your Role> | MM/YYYY – MM/YYYY

<2-3 sentences: what you built, your specific contributions, and one standout outcome. Write in first person, professional but conversational — suitable for LinkedIn's project section.>

**Tech:** Language, Framework, Key Libraries, Database, Infrastructure

Rules:
- Only claim what is directly evidenced in the diffs. Do not fabricate features or technologies.
- Version 1 should be polished and human-readable — ready to paste into a resume.
- Version 2 should be verbose and thorough — it will be consumed by an LLM for generating tailored resumes, cover letters, and interview prep. More detail is better.
- Version 3 should be concise and LinkedIn-optimized — 2-3 sentences max, first person.
- When uncertain about something, phrase it as "appears to" or "likely" rather than omitting it.
- Include raw technical details (class names, endpoint paths, config keys) in Version 2.
- If the diffs are too small for a full analysis, still extract every detail possible and note the limited scope.

Output ONLY the three versions with the delimiters, no additional commentary.

=== GIT DIFF CONTENT STARTS HERE ===
"#;

/// What stands before one chunk of a diff.
pub const CHUNK_PROMPT_TEMPLATE: &'static str = r#"Extract every piece of technical information from this git diff chunk. This will be merged with other chunks to build a comprehensive project summary for resume generation.

Be exhaustive — capture everything visible:

1. **Project/Repository**: name, path, organization (if visible)
2. **Date range**: commit dates (if visible)
3. **Technologies**: every language, framework, library, database, infrastructure tool, and service evidenced
4. **Features & APIs**: specific endpoints, controllers, services, data models, UI components implemented or modified
5. **Architecture**: patterns (MVC, microservices, event-driven, etc.), module organization, layer separation
6. **Data models**: schemas, entities, migrations, relationships
7. **Infrastructure**: Docker, CI/CD, cloud services, deployment configs
8. **Testing**: test files, testing frameworks, test patterns
9. **Technical complexity**: algorithms, business logic, error handling, security measures
10. **Domain context**: what business problem does this code solve? Who are the users?
11. **Code quality signals**: logging, documentation, error handling patterns, code organization

Output detailed structured bullet points under each category. Include specific class names, file paths, and endpoint paths where visible. Skip categories that have no evidence in this chunk.

=== GIT DIFF CHUNK ===
"#;

/// What stands before the summaries of the chunks of a diff.
pub const MERGE_PROMPT_TEMPLATE: &'static str = r#"You are a senior technical resume writer. Based on the following partial analyses from different chunks of the same git diff file, create THREE versions of a unified project summary.

Deduplicate, synthesize, and enrich the information. Combine overlapping details and resolve any contradictions.

Output ALL THREE versions below, separated by the exact delimiter shown. Entirely in English.

================================================================================
VERSION 1: PROFESSIONAL RESUME
================================================================================

# <Project Name>
📅 MM/YYYY - MM/YYYY

## Summary
A concise paragraph (2-3 sentences) describing the project, its domain, and your role.

## Key Accomplishments
- 4-6 bullet points, each one concise sentence
- Follow the pattern: "[Action verb] [what] using [technology], resulting in [impact]"
- Focus on the most impressive, resume-worthy achievements
- Quantify where possible

## Tech Stack
Single line, comma-separated: Language, Framework, Database, Infrastructure, Tools

================================================================================
VERSION 2: DETAILED TECHNICAL ANALYSIS (LLM SOURCE)
================================================================================

# <Project Name>
📅 MM/YYYY - MM/YYYY

## Project Overview
A detailed paragraph (4-6 sentences) describing: what the project is, its business domain, the overall system architecture, who the end users are, and the scale/complexity.

## Technical Architecture
Describe the system design in detail: codebase organization, architectural patterns, data flow, integration points, auth approach, database design.

## Key Technical Contributions
- 6-12 detailed bullet points of concrete technical work
- Each bullet: 1-2 sentences, specific and descriptive
- Pattern: "Implemented/Designed/Built/Optimized [specific feature] by [technical approach], enabling [outcome/capability]"
- Include specific details: endpoint paths, class names, config parameters, library usage
- Include quantifiable metrics where inferable

## Technology Stack
List every evidenced technology organized by category:
- **Languages**: (with version if visible)
- **Frameworks**:
- **Libraries/Dependencies**:
- **Databases/Storage**:
- **Infrastructure/DevOps**:
- **Testing**:
- **Build Tools**:
- **Other Tools/Services**:

## Technical Challenges & Solutions
2-4 paragraphs on: complex problems visible in the code, how they were solved, design trade-offs, refactoring or iteration across commits.

## Code Quality Indicators
Evidence of: testing practices, documentation, error handling, logging, security considerations.

================================================================================
VERSION 3: LINKEDIN PROJECT
================================================================================

# <Project Name>
<Your Role> | MM/YYYY – MM/YYYY

<2-3 sentences: what you built, your specific contributions, and one standout outcome. Write in first person, professional but conversational.>

**Tech:** Language, Framework, Key Libraries, Database, Infrastructure

Rules:
- Only claim what is directly evidenced in the partial analyses. Do not fabricate.
- Version 1 should be polished and human-readable — ready to paste into a resume.
- Version 2 should be verbose and thorough — more detail is better for downstream LLM consumption.
- Version 3 should be concise and LinkedIn-optimized — 2-3 sentences max, first person.
- When uncertain, phrase as "appears to" or "likely" rather than omitting.
- Include raw technical details (class names, endpoint paths, config keys) in Version 2.

Output ONLY the three versions with the delimiters, no additional commentary.

=== PARTIAL SUMMARIES ===
"#;

} // verus!
